//! Markdown to HTML, by `pulldown_cmark`.

use vstd::prelude::*;

verus! {

/// The extensions to the common Markdown baseline that a site may switch on.
/// By default none is.
#[derive(Clone, Copy, Debug)]
pub struct MarkdownOptions {
    /// Tables, written with pipes.
    pub tables: bool,
    /// Text struck through, written between tildes.
    pub strikethrough: bool,
}

impl Default for MarkdownOptions {
    fn default() -> (r: MarkdownOptions)
        ensures
            !r.tables,
            !r.strikethrough,
    {
        MarkdownOptions { tables: false, strikethrough: false }
    }
}

/// The HTML fragment that `pulldown_cmark` writes for a Markdown text, with
/// tables and strikethrough switched on or off and no other extension.
pub uninterp spec fn markdown_html(body: Seq<char>, tables: bool, strikethrough: bool) -> Seq<char>;

/// Runs `pulldown_cmark::Parser::new_ext` over `body` and hands its events to
/// `pulldown_cmark::html::push_html`. The parser accepts every text and the
/// writer into a `String` does not fail; what they produce depends on the text
/// and the options alone, and is known here only by its name.
#[verifier::external_body]
fn push_html(body: &str, options: MarkdownOptions) -> (html: String)
    ensures
        html@ == markdown_html(body@, options.tables, options.strikethrough),
{
    let mut flags = pulldown_cmark::Options::empty();
    flags.set(pulldown_cmark::Options::ENABLE_TABLES, options.tables);
    flags.set(pulldown_cmark::Options::ENABLE_STRIKETHROUGH, options.strikethrough);
    let mut html = String::new();
    pulldown_cmark::html::push_html(&mut html, pulldown_cmark::Parser::new_ext(body, flags));
    html
}

/// Renders a Markdown body as an HTML fragment. Nothing is sanitised and no
/// link is rewritten.
pub fn render_markdown(body: &str, options: MarkdownOptions) -> (html: String)
    ensures
        html@ == markdown_html(body@, options.tables, options.strikethrough),
{
    push_html(body, options)
}

} // verus!
