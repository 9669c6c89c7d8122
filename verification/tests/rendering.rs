use mdsite::markdown::{render_markdown, MarkdownOptions};
use mdsite::page::{build_context, page_context, PageMetadata};
use mdsite::template::Template;

const PAGE: &str = "<html><head><title>{{ title }}</title>{% if css %}<style>{{ css | safe }}</style>{% endif %}</head><body>{{ content | safe }}</body></html>";

/// Renders a page the way a driver does, with an engine of its own.
fn render_with(template: &Template, context: &tera::Context) -> Result<String, String> {
    let mut engine = tera::Tera::default();
    engine.add_raw_template(Template::name(), template.source()).map_err(|e| e.to_string())?;
    engine.render(Template::name(), context).map_err(|e| e.to_string())
}

fn variable(context: &tera::Context, name: &str) -> Option<String> {
    context.get(name).and_then(|value| value.as_str()).map(|text| text.to_string())
}

#[test]
fn markdown_baseline_is_rendered() {
    let html = render_markdown("# Hello\nThis is **Markdown**.", MarkdownOptions::default());
    assert_eq!(html, "<h1>Hello</h1>\n<p>This is <strong>Markdown</strong>.</p>\n");
}

#[test]
fn markdown_lists_emphasis_and_code_spans_are_rendered() {
    let html = render_markdown("* one\n* *two*\n\n`code`\n", MarkdownOptions::default());
    assert_eq!(
        html,
        "<ul>\n<li>one</li>\n<li><em>two</em></li>\n</ul>\n<p><code>code</code></p>\n"
    );
}

#[test]
fn empty_markdown_gives_an_empty_fragment() {
    assert_eq!(render_markdown("", MarkdownOptions::default()), "");
}

#[test]
fn markdown_passes_raw_html_through() {
    let html = render_markdown("<div class=\"x\">kept</div>\n", MarkdownOptions::default());
    assert_eq!(html, "<div class=\"x\">kept</div>\n");
}

#[test]
fn default_options_switch_every_extension_off() {
    let options = MarkdownOptions::default();
    assert!(!options.tables);
    assert!(!options.strikethrough);
}

#[test]
fn strikethrough_is_rendered_only_when_switched_on() {
    let off = render_markdown("~~gone~~", MarkdownOptions::default());
    assert_eq!(off, "<p>~~gone~~</p>\n");
    let on = render_markdown("~~gone~~", MarkdownOptions { tables: false, strikethrough: true });
    assert_eq!(on, "<p><del>gone</del></p>\n");
}

#[test]
fn tables_are_rendered_only_when_switched_on() {
    let text = "| a | b |\n|---|---|\n| 1 | 2 |\n";
    let off = render_markdown(text, MarkdownOptions::default());
    assert!(!off.contains("<table>"));
    let on = render_markdown(text, MarkdownOptions { tables: true, strikethrough: false });
    assert!(on.contains("<table>"));
    assert!(on.contains("<td>1</td>"));
}

#[test]
fn context_of_a_page_with_metadata_holds_its_title_and_description() {
    let metadata = Some(PageMetadata { title: "T".to_string(), description: "D".to_string() });
    let context = build_context(&metadata, "<p>x</p>", &None);
    assert_eq!(variable(&context, "content"), Some("<p>x</p>".to_string()));
    assert_eq!(variable(&context, "title"), Some("T".to_string()));
    assert_eq!(variable(&context, "description"), Some("D".to_string()));
    assert!(context.get("css").is_none());
}

#[test]
fn context_of_a_page_without_metadata_holds_the_defaults() {
    let context = build_context(&None, "", &None);
    assert_eq!(variable(&context, "title"), Some("Untitled".to_string()));
    assert_eq!(variable(&context, "description"), Some(String::new()));
    assert_eq!(variable(&context, "content"), Some(String::new()));
    assert!(context.get("css").is_none());
}

#[test]
fn context_keeps_an_empty_title_of_the_metadata() {
    let metadata = Some(PageMetadata { title: String::new(), description: String::new() });
    let context = build_context(&metadata, "", &None);
    assert_eq!(variable(&context, "title"), Some(String::new()));
}

#[test]
fn context_holds_the_stylesheet_of_a_site_that_has_one() {
    let css = Some("body { color: blue; }".to_string());
    let context = build_context(&None, "x", &css);
    assert_eq!(variable(&context, "css"), Some("body { color: blue; }".to_string()));
}

#[test]
fn template_compiles_and_keeps_its_source() {
    let template = Template::compile(PAGE).unwrap();
    assert_eq!(template.source(), PAGE);
    assert_eq!(Template::name(), "page");
}

#[test]
fn template_that_does_not_parse_is_refused() {
    let error = Template::compile("{% if css %}never closed").err().unwrap();
    assert!(!error.message.is_empty());
    assert!(Template::compile("{{ title").is_err());
}

#[test]
fn template_renders_variables_and_conditionals() {
    let template = Template::compile(PAGE).unwrap();
    let metadata = Some(PageMetadata { title: "Test Page".to_string(), description: String::new() });
    let css = Some("body { color: blue; }".to_string());
    let with_css = render_with(&template, &build_context(&metadata, "<h1>Hello</h1>", &css)).unwrap();
    assert_eq!(
        with_css,
        "<html><head><title>Test Page</title><style>body { color: blue; }</style></head><body><h1>Hello</h1></body></html>"
    );
    let without = render_with(&template, &build_context(&metadata, "<h1>Hello</h1>", &None)).unwrap();
    assert_eq!(
        without,
        "<html><head><title>Test Page</title></head><body><h1>Hello</h1></body></html>"
    );
}

#[test]
fn template_renders_the_defaults_for_a_page_without_metadata() {
    let template = Template::compile("{{ title }}|{{ description }}|{{ content | safe }}").unwrap();
    let page = render_with(&template, &build_context(&None, "<p>x</p>", &None)).unwrap();
    assert_eq!(page, "Untitled||<p>x</p>");
}

#[test]
fn accepted_template_is_accepted_again_by_an_engine_of_the_driver() {
    let template = Template::compile("{{ title.missing.deeper }}").unwrap();
    let mut engine = tera::Tera::default();
    assert!(engine.add_raw_template(Template::name(), template.source()).is_ok());
    assert!(render_with(&template, &build_context(&None, "", &None)).is_err());
}

#[test]
fn page_context_renders_the_body_into_the_content() {
    let metadata = Some(PageMetadata { title: "T".to_string(), description: "D".to_string() });
    let css = Some("p { margin: 0; }".to_string());
    let context = page_context(&metadata, "# Hello", MarkdownOptions::default(), &css);
    assert_eq!(variable(&context, "content"), Some("<h1>Hello</h1>\n".to_string()));
    assert_eq!(variable(&context, "title"), Some("T".to_string()));
    assert_eq!(variable(&context, "description"), Some("D".to_string()));
    assert_eq!(variable(&context, "css"), Some("p { margin: 0; }".to_string()));
    let plain = page_context(&None, "~~x~~", MarkdownOptions { tables: false, strikethrough: true }, &None);
    assert_eq!(variable(&plain, "content"), Some("<p><del>x</del></p>\n".to_string()));
    assert_eq!(variable(&plain, "title"), Some("Untitled".to_string()));
}
