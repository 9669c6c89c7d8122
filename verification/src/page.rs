//! The metadata of a page and the variables that its template receives.

use vstd::prelude::*;
use crate::markdown::{markdown_html, render_markdown, MarkdownOptions};
use crate::template::{context_vars, insert_text, new_context, no_vars};

verus! {

/// What the front matter of a document says of its page.
#[derive(Debug)]
pub struct PageMetadata {
    /// The title; a block without one does not parse.
    pub title: String,
    /// The description; empty where the block has none.
    pub description: String,
}

/// A `PageMetadata` as two texts.
pub struct MetadataView {
    pub title: Seq<char>,
    pub description: Seq<char>,
}

impl View for PageMetadata {
    type V = MetadataView;

    open spec fn view(&self) -> MetadataView {
        MetadataView { title: self.title@, description: self.description@ }
    }
}

/// The metadata of a document that may have none, as texts.
pub open spec fn metadata_view(metadata: Option<PageMetadata>) -> Option<MetadataView> {
    match metadata {
        Some(m) => Some(m@),
        None => None,
    }
}

/// A text that may be absent, as a sequence of characters.
pub open spec fn text_view(text: Option<String>) -> Option<Seq<char>> {
    match text {
        Some(t) => Some(t@),
        None => None,
    }
}

/// The title of a page: that of its metadata, or the placeholder `Untitled`
/// for a document without metadata.
pub open spec fn page_title(metadata: Option<MetadataView>) -> Seq<char> {
    match metadata {
        Some(m) => m.title,
        None => "Untitled"@,
    }
}

/// The description of a page: that of its metadata, or the empty text.
pub open spec fn page_description(metadata: Option<MetadataView>) -> Seq<char> {
    match metadata {
        Some(m) => m.description,
        None => Seq::empty(),
    }
}

/// The variables of one page: `content`, `title` and `description` always,
/// `css` only for a site with a stylesheet.
pub open spec fn page_vars(
    metadata: Option<MetadataView>,
    content: Seq<char>,
    stylesheet: Option<Seq<char>>,
) -> Map<Seq<char>, Seq<char>> {
    let vars = no_vars().insert("content"@, content).insert("title"@, page_title(metadata)).insert(
        "description"@,
        page_description(metadata),
    );
    match stylesheet {
        Some(css) => vars.insert("css"@, css),
        None => vars,
    }
}

/// Builds the variables of one page from its metadata, its rendered
/// Markdown and the stylesheet of the site.
pub fn build_context(
    metadata: &Option<PageMetadata>,
    content: &str,
    stylesheet: &Option<String>,
) -> (context: tera::Context)
    ensures
        context_vars(context) == page_vars(
            metadata_view(*metadata),
            content@,
            text_view(*stylesheet),
        ),
{
    proof {
        reveal_strlit("");
    }
    let mut context = new_context();
    insert_text(&mut context, "content", content);
    match metadata {
        Some(m) => {
            insert_text(&mut context, "title", m.title.as_str());
            insert_text(&mut context, "description", m.description.as_str());
        },
        None => {
            insert_text(&mut context, "title", "Untitled");
            assert(""@ =~= Seq::<char>::empty());
            insert_text(&mut context, "description", "");
        },
    }
    match stylesheet {
        Some(css) => {
            insert_text(&mut context, "css", css.as_str());
        },
        None => {},
    }
    context
}

/// Builds the variables of the page of a document: its Markdown body is
/// rendered and set beside its metadata and the stylesheet of the site.
pub fn page_context(
    metadata: &Option<PageMetadata>,
    body: &str,
    options: MarkdownOptions,
    stylesheet: &Option<String>,
) -> (context: tera::Context)
    ensures
        context_vars(context) == page_vars(
            metadata_view(*metadata),
            markdown_html(body@, options.tables, options.strikethrough),
            text_view(*stylesheet),
        ),
{
    let html = render_markdown(body, options);
    build_context(metadata, html.as_str(), stylesheet)
}

} // verus!
