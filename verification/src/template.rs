//! The page template and the variables of a page, as `tera` holds them.
//!
//! The library has the engine parse the template, so that a site with a
//! template that does not parse fails before any document is read, and it
//! builds the variables of each page. Rendering a page is the driver's work:
//! what a template does with its variables is the engine's to decide, and may
//! depend on the time, the environment or chance.

use vstd::prelude::*;
use vstd::string::*;

verus! {

/// `tera::Error`, what the engine fails with.
#[verifier::external_type_specification]
#[verifier::external_body]
pub struct ExTeraError(tera::Error);

/// `tera::Context`, the variables handed to one rendering.
#[verifier::external_type_specification]
#[verifier::external_body]
pub struct ExTeraContext(tera::Context);

/// Whether a fresh engine accepts `source` as a template under `name`.
pub uninterp spec fn template_parses(name: Seq<char>, source: Seq<char>) -> bool;

/// The text variables that a context holds, by name.
pub uninterp spec fn context_vars(context: tera::Context) -> Map<Seq<char>, Seq<char>>;

/// A context without variables.
pub open spec fn no_vars() -> Map<Seq<char>, Seq<char>> {
    Map::empty()
}

/// The name under which the one template of a site is registered.
pub open spec fn page_name() -> Seq<char> {
    "page"@
}

/// `tera::Tera::default` followed by `tera::Tera::add_raw_template`: parses
/// `source` and registers it under `name` in an engine that holds no other
/// template. Whether that succeeds depends on the two texts alone.
#[verifier::external_body]
fn add_raw_template(name: &str, source: &str) -> (r: Result<(), tera::Error>)
    ensures
        r is Ok <==> template_parses(name@, source@),
{
    let mut engine = tera::Tera::default();
    engine.add_raw_template(name, source)
}

/// `tera::Context::new`: a context without variables.
#[verifier::external_body]
pub(crate) fn new_context() -> (context: tera::Context)
    ensures
        context_vars(context) == no_vars(),
{
    tera::Context::new()
}

/// `tera::Context::insert` with a text value: sets the variable `name`,
/// replacing an earlier value, and leaves the others as they are.
#[verifier::external_body]
pub(crate) fn insert_text(context: &mut tera::Context, name: &str, value: &str)
    ensures
        context_vars(*final(context)) == context_vars(*old(context)).insert(name@, value@),
{
    context.insert(name, value);
}

/// The message of a `tera::Error`, as its `Display` gives it.
#[verifier::external_body]
fn error_message(error: &tera::Error) -> (message: String) {
    error.to_string()
}

/// Why a template was refused.
#[derive(Debug)]
pub struct TemplateError {
    /// The engine's message.
    pub message: String,
}

/// The text of a page template that the engine accepts.
#[derive(Debug)]
pub struct Template {
    source: String,
}

impl View for Template {
    type V = Seq<char>;

    closed spec fn view(&self) -> Seq<char> {
        self.source@
    }
}

impl Template {
    #[verifier::type_invariant]
    spec fn accepted(self) -> bool {
        template_parses(page_name(), self.source@)
    }

    /// Has the engine parse a page template. It fails exactly on a text that
    /// the engine does not accept.
    pub fn compile(source: &str) -> (r: Result<Template, TemplateError>)
        ensures
            r is Ok <==> template_parses(page_name(), source@),
            r matches Ok(template) ==> template@ == source@,
    {
        match add_raw_template("page", source) {
            Ok(()) => Ok(Template { source: String::from_str(source) }),
            Err(error) => Err(TemplateError { message: error_message(&error) }),
        }
    }

    /// The text of the template, which the engine accepts.
    pub fn source(&self) -> (r: &str)
        ensures
            r@ == self@,
            template_parses(page_name(), r@),
    {
        proof {
            use_type_invariant(self);
        }
        self.source.as_str()
    }

    /// The name under which the driver registers the template.
    pub fn name() -> (r: &'static str)
        ensures
            r@ == page_name(),
    {
        "page"
    }
}

} // verus!
