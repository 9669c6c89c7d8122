//! The run of a site generator, as a state machine.
//!
//! The generator does no input or output itself. It names the next thing to
//! do, the driver does it and reports back, and the generator decides what
//! follows. Only three failures end the run: a template that cannot be read,
//! one that does not parse, and an output directory that cannot be created.
//! A failure on one document leaves that document out and the run goes on. A
//! stylesheet that cannot be read or copied is noted, and the site is
//! generated without it.

use vstd::prelude::*;
use vstd::string::*;
use crate::config::{Config, ConfigView};
use crate::front_matter::{front_matter_of, split_front_matter};
use crate::markdown::MarkdownOptions;
use crate::markdown::markdown_html;
use crate::page::{page_context, page_vars, MetadataView, PageMetadata};
use crate::paths::{
    is_markdown, is_markdown_path, join, output_path, output_path_of, stylesheet_name,
    stylesheet_path,
};
use crate::report::{
    notices_view, records_view, written_count, Notice, NoticeView, Outcome, OutcomeView, Record,
    RecordView, Stage,
};
use crate::template::{context_vars, page_name, template_parses, Template};

verus! {

/// What the driver is asked to do next.
#[derive(Debug)]
pub enum Action {
    /// Read the template file at `path` and answer with its text.
    ReadTemplate { path: String },
    /// Read the stylesheet at `path` and answer with its text.
    ReadStylesheet { path: String },
    /// Create the output directory `path` with all that lies above it.
    CreateOutputRoot { path: String },
    /// Answer with the next entry found under the source directory, of
    /// whatever kind, or with none when all have been given.
    NextEntry,
    /// Create the directories above the page `output`.
    CreateParentDirectories { input: String, output: String },
    /// Read the document `input` and answer with its text.
    ReadSource { input: String, output: String },
    /// Parse `block` as the metadata of a page.
    ParseMetadata { input: String, output: String, block: String, body: String },
    /// Render the template of the site with the variables in `context`, and
    /// answer with the page or with the engine's error.
    RenderPage { input: String, output: String, context: tera::Context },
    /// Write `html` to the file `output`, replacing what is there: all of it
    /// or nothing.
    WritePage { input: String, output: String, html: String },
    /// Copy the stylesheet `from` to `to`, replacing what is there.
    CopyStylesheet { from: String, to: String },
    /// Nothing is left to do: the site is generated.
    Finish,
    /// The run has failed at `stage`.
    Abort { stage: Stage, cause: String },
}

/// An `Action` as texts.
pub enum ActionView {
    ReadTemplate { path: Seq<char> },
    ReadStylesheet { path: Seq<char> },
    CreateOutputRoot { path: Seq<char> },
    NextEntry,
    CreateParentDirectories { input: Seq<char>, output: Seq<char> },
    ReadSource { input: Seq<char>, output: Seq<char> },
    ParseMetadata { input: Seq<char>, output: Seq<char>, block: Seq<char>, body: Seq<char> },
    RenderPage { input: Seq<char>, output: Seq<char>, variables: Map<Seq<char>, Seq<char>> },
    WritePage { input: Seq<char>, output: Seq<char>, html: Seq<char> },
    CopyStylesheet { from: Seq<char>, to: Seq<char> },
    Finish,
    Abort { stage: Stage, cause: Seq<char> },
}

impl View for Action {
    type V = ActionView;

    open spec fn view(&self) -> ActionView {
        match self {
            Action::ReadTemplate { path } => ActionView::ReadTemplate { path: path@ },
            Action::ReadStylesheet { path } => ActionView::ReadStylesheet { path: path@ },
            Action::CreateOutputRoot { path } => ActionView::CreateOutputRoot { path: path@ },
            Action::NextEntry => ActionView::NextEntry,
            Action::CreateParentDirectories { input, output } => {
                ActionView::CreateParentDirectories { input: input@, output: output@ }
            },
            Action::ReadSource { input, output } => ActionView::ReadSource {
                input: input@,
                output: output@,
            },
            Action::ParseMetadata { input, output, block, body } => ActionView::ParseMetadata {
                input: input@,
                output: output@,
                block: block@,
                body: body@,
            },
            Action::RenderPage { input, output, context } => ActionView::RenderPage {
                input: input@,
                output: output@,
                variables: context_vars(*context),
            },
            Action::WritePage { input, output, html } => ActionView::WritePage {
                input: input@,
                output: output@,
                html: html@,
            },
            Action::CopyStylesheet { from, to } => ActionView::CopyStylesheet {
                from: from@,
                to: to@,
            },
            Action::Finish => ActionView::Finish,
            Action::Abort { stage, cause } => ActionView::Abort { stage: *stage, cause: cause@ },
        }
    }
}

/// What the driver answers. An error carries its cause in words.
#[derive(Debug)]
pub enum Event {
    /// The text of a file that was to be read.
    Text(Result<String, String>),
    /// A directory was created, or a file written or copied.
    Done(Result<(), String>),
    /// The path of the next entry under the source directory, if one is left.
    Entry(Option<String>),
    /// The metadata that a block holds.
    Metadata(Result<PageMetadata, String>),
    /// The page that the template gives for the variables handed out.
    Rendered(Result<String, String>),
}

/// An `Event` as texts.
pub enum EventView {
    Text(Result<Seq<char>, Seq<char>>),
    Done(Result<(), Seq<char>>),
    Entry(Option<Seq<char>>),
    Metadata(Result<MetadataView, Seq<char>>),
    Rendered(Result<Seq<char>, Seq<char>>),
}

impl View for Event {
    type V = EventView;

    open spec fn view(&self) -> EventView {
        match self {
            Event::Text(Ok(text)) => EventView::Text(Ok(text@)),
            Event::Text(Err(cause)) => EventView::Text(Err(cause@)),
            Event::Done(Ok(())) => EventView::Done(Ok(())),
            Event::Done(Err(cause)) => EventView::Done(Err(cause@)),
            Event::Entry(Some(path)) => EventView::Entry(Some(path@)),
            Event::Entry(None) => EventView::Entry(None),
            Event::Metadata(Ok(metadata)) => EventView::Metadata(Ok(metadata@)),
            Event::Metadata(Err(cause)) => EventView::Metadata(Err(cause@)),
            Event::Rendered(Ok(html)) => EventView::Rendered(Ok(html@)),
            Event::Rendered(Err(cause)) => EventView::Rendered(Err(cause@)),
        }
    }
}

/// The state of a run, as texts.
pub struct GeneratorView {
    /// The configuration of the run.
    pub config: ConfigView,
    /// The Markdown extensions that are switched on.
    pub options: MarkdownOptions,
    /// The text of the template, once it is compiled.
    pub template: Option<Seq<char>>,
    /// The text of the stylesheet, once it is read. A site without a
    /// stylesheet has none, and so has a site whose stylesheet could not be
    /// read: its pages get no `css` variable.
    pub stylesheet: Option<Seq<char>>,
    /// What the driver is asked to do.
    pub pending: ActionView,
    /// The documents that the run is done with, in order.
    pub records: Seq<RecordView>,
    /// The failures that were only reported, in order.
    pub notices: Seq<NoticeView>,
}

/// The cause given for a document that does not lie under the source
/// directory.
pub open spec fn prefix_not_found() -> Seq<char> {
    "prefix not found"@
}

impl GeneratorView {
    /// The state of a run that has not begun.
    pub open spec fn initial(config: ConfigView, options: MarkdownOptions) -> GeneratorView {
        GeneratorView {
            config,
            options,
            template: None,
            stylesheet: None,
            pending: ActionView::ReadTemplate { path: config.template_file },
            records: Seq::empty(),
            notices: Seq::empty(),
        }
    }

    /// The same state with another thing to do.
    pub open spec fn go(self, pending: ActionView) -> GeneratorView {
        GeneratorView { pending, ..self }
    }

    /// The same state with one more failure reported.
    pub open spec fn note(self, stage: Stage, cause: Seq<char>) -> GeneratorView {
        GeneratorView { notices: self.notices.push(NoticeView { stage, cause }), ..self }
    }

    /// The state after the run has failed at `stage`.
    pub open spec fn abort(self, stage: Stage, cause: Seq<char>) -> GeneratorView {
        self.go(ActionView::Abort { stage, cause })
    }

    /// The state after the document `input` was left out.
    pub open spec fn skip(self, input: Seq<char>, stage: Stage, cause: Seq<char>) -> GeneratorView {
        GeneratorView {
            pending: ActionView::NextEntry,
            records: self.records.push(
                RecordView { input, outcome: OutcomeView::Skipped { stage, cause } },
            ),
            ..self
        }
    }

    /// The state after the page of the document `input` was written.
    pub open spec fn wrote(self, input: Seq<char>, output: Seq<char>) -> GeneratorView {
        GeneratorView {
            pending: ActionView::NextEntry,
            records: self.records.push(RecordView { input, outcome: OutcomeView::Written { output } }),
            ..self
        }
    }

    /// The state in which the page `html` of the document `input` waits to
    /// be written.
    pub open spec fn write(self, input: Seq<char>, output: Seq<char>, html: Seq<char>) -> GeneratorView {
        self.go(ActionView::WritePage { input, output, html })
    }

    /// What follows the template: the stylesheet if the site has one, else
    /// the output directory.
    pub open spec fn after_template(self) -> ActionView {
        match self.config.css_file {
            Some(path) => ActionView::ReadStylesheet { path },
            None => ActionView::CreateOutputRoot { path: self.config.output_dir },
        }
    }

    /// What follows the last document: the copy of the stylesheet if the site
    /// has one, else the end.
    pub open spec fn after_documents(self) -> ActionView {
        match self.config.css_file {
            Some(from) => ActionView::CopyStylesheet {
                from,
                to: join(self.config.output_dir, stylesheet_name()),
            },
            None => ActionView::Finish,
        }
    }

    /// What follows the discovery of the entry `path`: nothing for an entry
    /// that is no Markdown file, the directories of its page for a document
    /// under the source directory, and a record of failure for any other.
    pub open spec fn discover(self, path: Seq<char>) -> GeneratorView {
        if !is_markdown(path) {
            self
        } else {
            match output_path_of(self.config.source_dir, self.config.output_dir, path) {
                Some(output) => self.go(ActionView::CreateParentDirectories { input: path, output }),
                None => self.skip(path, Stage::Location, prefix_not_found()),
            }
        }
    }

    /// The state in which the page of the document `input` waits to be
    /// rendered: its Markdown body is rendered already and stands among the
    /// variables, beside its metadata and the stylesheet that was read.
    pub open spec fn render(
        self,
        input: Seq<char>,
        output: Seq<char>,
        metadata: Option<MetadataView>,
        body: Seq<char>,
    ) -> GeneratorView {
        self.go(
            ActionView::RenderPage {
                input,
                output,
                variables: page_vars(
                    metadata,
                    markdown_html(body, self.options.tables, self.options.strikethrough),
                    self.stylesheet,
                ),
            },
        )
    }
}

/// `post` is a state that the event may lead to from the state `pre`. But
/// for the words in which the engine refuses a template, the event decides
/// the state.
///
/// A stylesheet that cannot be read is noted and the run goes on to the
/// output directory without it; its copy is still asked for at the end, and
/// noted too if it fails. An event that does not answer what was asked, and
/// any event once the run has ended, changes nothing.
pub open spec fn transition(pre: GeneratorView, event: EventView, post: GeneratorView) -> bool {
    match (pre.pending, event) {
        (ActionView::ReadTemplate { .. }, EventView::Text(Ok(source))) => {
            if template_parses(page_name(), source) {
                post == (GeneratorView { template: Some(source), ..pre }).go(pre.after_template())
            } else {
                exists|cause: Seq<char>| post == #[trigger] pre.abort(Stage::TemplateCompile, cause)
            }
        },
        (ActionView::ReadTemplate { .. }, EventView::Text(Err(cause))) => {
            post == pre.abort(Stage::TemplateLoad, cause)
        },
        (ActionView::ReadStylesheet { .. }, EventView::Text(Ok(css))) => {
            post == (GeneratorView { stylesheet: Some(css), ..pre }).go(
                ActionView::CreateOutputRoot { path: pre.config.output_dir },
            )
        },
        (ActionView::ReadStylesheet { .. }, EventView::Text(Err(cause))) => {
            post == pre.note(Stage::StylesheetLoad, cause).go(
                ActionView::CreateOutputRoot { path: pre.config.output_dir },
            )
        },
        (ActionView::CreateOutputRoot { .. }, EventView::Done(Ok(_))) => {
            post == pre.go(ActionView::NextEntry)
        },
        (ActionView::CreateOutputRoot { .. }, EventView::Done(Err(cause))) => {
            post == pre.abort(Stage::OutputRoot, cause)
        },
        (ActionView::NextEntry, EventView::Entry(Some(path))) => post == pre.discover(path),
        (ActionView::NextEntry, EventView::Entry(None)) => post == pre.go(pre.after_documents()),
        (ActionView::CreateParentDirectories { input, output }, EventView::Done(Ok(_))) => {
            post == pre.go(ActionView::ReadSource { input, output })
        },
        (ActionView::CreateParentDirectories { input, .. }, EventView::Done(Err(cause))) => {
            post == pre.skip(input, Stage::Directories, cause)
        },
        (ActionView::ReadSource { input, output }, EventView::Text(Ok(content))) => {
            match front_matter_of(content) {
                (Some(block), body) => post == pre.go(
                    ActionView::ParseMetadata { input, output, block, body },
                ),
                (None, body) => post == pre.render(input, output, None, body),
            }
        },
        (ActionView::ReadSource { input, .. }, EventView::Text(Err(cause))) => {
            post == pre.skip(input, Stage::Read, cause)
        },
        (ActionView::ParseMetadata { input, output, body, .. }, EventView::Metadata(Ok(metadata))) => {
            post == pre.render(input, output, Some(metadata), body)
        },
        (ActionView::ParseMetadata { input, .. }, EventView::Metadata(Err(cause))) => {
            post == pre.skip(input, Stage::Metadata, cause)
        },
        (ActionView::RenderPage { input, output, .. }, EventView::Rendered(Ok(html))) => {
            post == pre.write(input, output, html)
        },
        (ActionView::RenderPage { input, .. }, EventView::Rendered(Err(cause))) => {
            post == pre.skip(input, Stage::Render, cause)
        },
        (ActionView::WritePage { input, output, .. }, EventView::Done(Ok(_))) => {
            post == pre.wrote(input, output)
        },
        (ActionView::WritePage { input, .. }, EventView::Done(Err(cause))) => {
            post == pre.skip(input, Stage::Write, cause)
        },
        (ActionView::CopyStylesheet { .. }, EventView::Done(Ok(_))) => {
            post == pre.go(ActionView::Finish)
        },
        (ActionView::CopyStylesheet { .. }, EventView::Done(Err(cause))) => {
            post == pre.note(Stage::StylesheetCopy, cause).go(ActionView::Finish)
        },
        _ => post == pre,
    }
}

impl ActionView {
    /// The site is set up and the run is at work on its documents, or has
    /// only the stylesheet left to copy.
    pub open spec fn is_past_setup(self) -> bool {
        match self {
            ActionView::NextEntry
            | ActionView::CreateParentDirectories { .. }
            | ActionView::ReadSource { .. }
            | ActionView::ParseMetadata { .. }
            | ActionView::RenderPage { .. }
            | ActionView::WritePage { .. }
            | ActionView::CopyStylesheet { .. } => true,
            _ => false,
        }
    }
}

/// Once the site is set up, nothing ends the run in failure: whatever the
/// driver answers, the run stays at work or finishes.
pub proof fn lemma_no_failure_past_setup(pre: GeneratorView, event: EventView, post: GeneratorView)
    requires
        pre.pending.is_past_setup(),
        transition(pre, event, post),
    ensures
        post.pending.is_past_setup() || post.pending is Finish,
{
}

/// The event is one that ends the run in failure: the template cannot be
/// read or does not parse, or the output directory cannot be created.
pub open spec fn fails_the_run(pre: GeneratorView, event: EventView) -> bool {
    match (pre.pending, event) {
        (ActionView::ReadTemplate { .. }, EventView::Text(Err(_))) => true,
        (ActionView::ReadTemplate { .. }, EventView::Text(Ok(source))) => !template_parses(
            page_name(),
            source,
        ),
        (ActionView::CreateOutputRoot { .. }, EventView::Done(Err(_))) => true,
        _ => false,
    }
}

/// The run fails as a whole on three events and no other: the template
/// cannot be read, the template does not parse, the output directory cannot
/// be created. After any of them no page is asked for any more.
pub proof fn lemma_fatal_failures(pre: GeneratorView, event: EventView, post: GeneratorView)
    requires
        !(pre.pending is Abort),
        transition(pre, event, post),
    ensures
        post.pending is Abort <==> fails_the_run(pre, event),
        post.pending matches ActionView::Abort { stage, .. } ==> stage == Stage::TemplateLoad
            || stage == Stage::TemplateCompile || stage == Stage::OutputRoot,
{
}

/// A rendering that the driver reports decides the document: a page goes on
/// to be written to the place that was fixed for it, and an error of the
/// engine leaves the document out with that error as the cause.
pub proof fn lemma_rendering_decides(
    pre: GeneratorView,
    outcome: Result<Seq<char>, Seq<char>>,
    post: GeneratorView,
)
    requires
        pre.pending is RenderPage,
        transition(pre, EventView::Rendered(outcome), post),
    ensures
        match outcome {
            Ok(html) => post == pre.write(
                pre.pending->RenderPage_input,
                pre.pending->RenderPage_output,
                html,
            ),
            Err(cause) => post == pre.skip(pre.pending->RenderPage_input, Stage::Render, cause),
        },
{
}

/// A metadata block that does not parse costs its document and nothing
/// else: the document is recorded as left out, no page of it is asked for,
/// the earlier records stand, and the run asks for the next entry.
pub proof fn lemma_malformed_metadata_is_isolated(
    pre: GeneratorView,
    cause: Seq<char>,
    post: GeneratorView,
)
    requires
        pre.pending is ParseMetadata,
        transition(pre, EventView::Metadata(Err(cause)), post),
    ensures
        post.pending == ActionView::NextEntry,
        post.records.len() == pre.records.len() + 1,
        post.records.drop_last() == pre.records,
        post.records.last().input == pre.pending->ParseMetadata_input,
        post.records.last().outcome == (OutcomeView::Skipped { stage: Stage::Metadata, cause }),
        written_count(post.records) == written_count(pre.records),
{
    assert(post.records.drop_last() =~= pre.records);
}

/// What a run holds besides the thing to do.
struct Site {
    config: Config,
    options: MarkdownOptions,
    template: Option<Template>,
    stylesheet: Option<String>,
    records: Vec<Record>,
    notices: Vec<Notice>,
}

/// A run of the site generator.
pub struct Generator {
    site: Site,
    pending: Action,
}

impl Site {
    spec fn with(self, pending: ActionView) -> GeneratorView {
        GeneratorView {
            config: self.config@,
            options: self.options,
            template: match self.template {
                Some(template) => Some(template@),
                None => None,
            },
            stylesheet: match self.stylesheet {
                Some(css) => Some(css@),
                None => None,
            },
            pending,
            records: records_view(self.records@),
            notices: notices_view(self.notices@),
        }
    }

    /// The run goes on with `pending`.
    fn go(self, pending: Action) -> (r: Generator)
        ensures
            r@ == self.with(pending@),
    {
        Generator { site: self, pending }
    }

    /// The run is done with the document `input`.
    fn close(self, input: String, outcome: Outcome) -> (r: Generator)
        ensures
            r@ == (GeneratorView {
                records: self.with(ActionView::NextEntry).records.push(
                    RecordView { input: input@, outcome: outcome@ },
                ),
                ..self.with(ActionView::NextEntry)
            }),
    {
        let mut site = self;
        site.records.push(Record { input, outcome });
        proof {
            assert(records_view(site.records@) =~= records_view(self.records@).push(
                RecordView { input: input@, outcome: outcome@ },
            ));
        }
        site.go(Action::NextEntry)
    }

    /// One more failure is reported.
    fn note(self, stage: Stage, cause: String) -> (r: Site)
        ensures
            forall|pending: ActionView| #[trigger] r.with(pending) == self.with(pending).note(stage, cause@),
    {
        let mut site = self;
        site.notices.push(Notice { stage, cause });
        proof {
            assert(notices_view(site.notices@) =~= notices_view(self.notices@).push(
                NoticeView { stage, cause: cause@ },
            ));
        }
        site
    }

    /// The page of the document `input` is to be rendered.
    fn render(
        self,
        input: String,
        output: String,
        metadata: Option<PageMetadata>,
        body: &str,
        Ghost(pending): Ghost<ActionView>,
    ) -> (r: Generator)
        ensures
            r@ == self.with(pending).render(input@, output@, crate::page::metadata_view(metadata), body@),
    {
        let context = page_context(&metadata, body, self.options, &self.stylesheet);
        self.go(Action::RenderPage { input, output, context })
    }
}

impl View for Generator {
    type V = GeneratorView;

    closed spec fn view(&self) -> GeneratorView {
        self.site.with(self.pending@)
    }
}

impl Generator {
    /// A run that has not begun: it asks for the template.
    pub fn new(config: Config, options: MarkdownOptions) -> (r: Generator)
        ensures
            r@ == GeneratorView::initial(config@, options),
    {
        let path = config.template_file.clone();
        let site = Site {
            config,
            options,
            template: None,
            stylesheet: None,
            records: Vec::new(),
            notices: Vec::new(),
        };
        proof {
            assert(records_view(site.records@) =~= Seq::<RecordView>::empty());
            assert(notices_view(site.notices@) =~= Seq::<NoticeView>::empty());
        }
        site.go(Action::ReadTemplate { path })
    }

    /// What the driver is asked to do.
    pub fn pending(&self) -> (r: &Action)
        ensures
            r@ == self@.pending,
    {
        &self.pending
    }

    /// The configuration of the run.
    pub fn config(&self) -> (r: &Config)
        ensures
            r@ == self@.config,
    {
        &self.site.config
    }

    /// The documents that the run is done with, in order.
    pub fn records(&self) -> (r: &Vec<Record>)
        ensures
            records_view(r@) == self@.records,
    {
        &self.site.records
    }

    /// The failures that were only reported, in order.
    pub fn notices(&self) -> (r: &Vec<Notice>)
        ensures
            notices_view(r@) == self@.notices,
    {
        &self.site.notices
    }

    /// The template of the site, once it is read and the engine accepts it.
    pub fn template(&self) -> (r: Option<&Template>)
        ensures
            match r {
                Some(template) => self@.template == Some(template@),
                None => self@.template is None,
            },
    {
        self.site.template.as_ref()
    }

    /// Takes the driver's answer and decides what follows.
    pub fn step(self, event: Event) -> (post: Generator)
        ensures
            transition(self@, event@, post@),
    {
        let ghost pre = self@;
        let Generator { site, pending } = self;
        match (pending, event) {
            (Action::ReadTemplate { .. }, Event::Text(Ok(source))) => {
                match Template::compile(source.as_str()) {
                    Ok(template) => {
                        let mut site = site;
                        site.template = Some(template);
                        let next = match &site.config.css_file {
                            Some(path) => Action::ReadStylesheet { path: path.clone() },
                            None => Action::CreateOutputRoot {
                                path: site.config.output_dir.clone(),
                            },
                        };
                        site.go(next)
                    },
                    Err(error) => {
                        let r = site.go(
                            Action::Abort { stage: Stage::TemplateCompile, cause: error.message },
                        );
                        assert(r@ == pre.abort(Stage::TemplateCompile, error.message@));
                        r
                    },
                }
            },
            (Action::ReadTemplate { .. }, Event::Text(Err(cause))) => {
                site.go(Action::Abort { stage: Stage::TemplateLoad, cause })
            },
            (Action::ReadStylesheet { .. }, Event::Text(Ok(css))) => {
                let mut site = site;
                site.stylesheet = Some(css);
                let path = site.config.output_dir.clone();
                site.go(Action::CreateOutputRoot { path })
            },
            (Action::ReadStylesheet { .. }, Event::Text(Err(cause))) => {
                let site = site.note(Stage::StylesheetLoad, cause);
                let path = site.config.output_dir.clone();
                site.go(Action::CreateOutputRoot { path })
            },
            (Action::CreateOutputRoot { .. }, Event::Done(Ok(()))) => site.go(Action::NextEntry),
            (Action::CreateOutputRoot { .. }, Event::Done(Err(cause))) => {
                site.go(Action::Abort { stage: Stage::OutputRoot, cause })
            },
            (Action::NextEntry, Event::Entry(Some(path))) => {
                if !is_markdown_path(path.as_str()) {
                    site.go(Action::NextEntry)
                } else {
                    let found = output_path(
                        site.config.source_dir.as_str(),
                        site.config.output_dir.as_str(),
                        path.as_str(),
                    );
                    match found {
                        Some(output) => site.go(
                            Action::CreateParentDirectories { input: path, output },
                        ),
                        None => {
                            let cause = String::from_str("prefix not found");
                            site.close(path, Outcome::Skipped { stage: Stage::Location, cause })
                        },
                    }
                }
            },
            (Action::NextEntry, Event::Entry(None)) => {
                let next = match &site.config.css_file {
                    Some(from) => Action::CopyStylesheet {
                        from: from.clone(),
                        to: stylesheet_path(site.config.output_dir.as_str()),
                    },
                    None => Action::Finish,
                };
                site.go(next)
            },
            (Action::CreateParentDirectories { input, output }, Event::Done(Ok(()))) => {
                site.go(Action::ReadSource { input, output })
            },
            (Action::CreateParentDirectories { input, .. }, Event::Done(Err(cause))) => {
                site.close(input, Outcome::Skipped { stage: Stage::Directories, cause })
            },
            (Action::ReadSource { input, output }, Event::Text(Ok(content))) => {
                let parts = split_front_matter(content.as_str());
                match parts.block {
                    Some(block) => site.go(
                        Action::ParseMetadata {
                            input,
                            output,
                            block: String::from_str(block),
                            body: String::from_str(parts.body),
                        },
                    ),
                    None => site.render(input, output, None, parts.body, Ghost(pre.pending)),
                }
            },
            (Action::ReadSource { input, .. }, Event::Text(Err(cause))) => {
                site.close(input, Outcome::Skipped { stage: Stage::Read, cause })
            },
            (Action::ParseMetadata { input, output, body, .. }, Event::Metadata(Ok(metadata))) => {
                site.render(input, output, Some(metadata), body.as_str(), Ghost(pre.pending))
            },
            (Action::ParseMetadata { input, .. }, Event::Metadata(Err(cause))) => {
                site.close(input, Outcome::Skipped { stage: Stage::Metadata, cause })
            },
            (Action::RenderPage { input, output, .. }, Event::Rendered(Ok(html))) => {
                site.go(Action::WritePage { input, output, html })
            },
            (Action::RenderPage { input, .. }, Event::Rendered(Err(cause))) => {
                site.close(input, Outcome::Skipped { stage: Stage::Render, cause })
            },
            (Action::WritePage { input, output, .. }, Event::Done(Ok(()))) => {
                site.close(input, Outcome::Written { output })
            },
            (Action::WritePage { input, .. }, Event::Done(Err(cause))) => {
                site.close(input, Outcome::Skipped { stage: Stage::Write, cause })
            },
            (Action::CopyStylesheet { .. }, Event::Done(Ok(()))) => site.go(Action::Finish),
            (Action::CopyStylesheet { .. }, Event::Done(Err(cause))) => {
                site.note(Stage::StylesheetCopy, cause).go(Action::Finish)
            },
            (pending, _) => site.go(pending),
        }
    }
}

} // verus!
