//! What became of each document of a run.

use vstd::prelude::*;

verus! {

/// The step at which something failed.
#[derive(Clone, Copy, Debug, PartialEq, Eq, Structural)]
pub enum Stage {
    /// Reading the template file.
    TemplateLoad,
    /// Compiling the template.
    TemplateCompile,
    /// Reading the stylesheet.
    StylesheetLoad,
    /// Creating the output directory.
    OutputRoot,
    /// Finding the document's place under the source directory.
    Location,
    /// Creating the directories above the page.
    Directories,
    /// Reading the document.
    Read,
    /// Parsing the metadata block.
    Metadata,
    /// Rendering the page through the template.
    Render,
    /// Writing the page.
    Write,
    /// Copying the stylesheet into the output directory.
    StylesheetCopy,
}

/// How far a failure reaches.
#[derive(Clone, Copy, Debug, PartialEq, Eq, Structural)]
pub enum Severity {
    /// The run ends without a site.
    Fatal,
    /// The document is left out; the run goes on with the next one.
    Document,
    /// The failure is reported and the run goes on without the stylesheet
    /// or its copy.
    Logged,
}

/// How far a failure at `stage` reaches.
pub open spec fn severity_of(stage: Stage) -> Severity {
    match stage {
        Stage::TemplateLoad | Stage::TemplateCompile | Stage::OutputRoot => Severity::Fatal,
        Stage::StylesheetLoad | Stage::StylesheetCopy => Severity::Logged,
        _ => Severity::Document,
    }
}

/// How far a failure at `stage` reaches.
pub fn severity(stage: Stage) -> (r: Severity)
    ensures
        r == severity_of(stage),
{
    match stage {
        Stage::TemplateLoad | Stage::TemplateCompile | Stage::OutputRoot => Severity::Fatal,
        Stage::StylesheetLoad | Stage::StylesheetCopy => Severity::Logged,
        _ => Severity::Document,
    }
}

/// How the work on one document ended.
#[derive(Debug)]
pub enum Outcome {
    /// Its page was written to `output`.
    Written { output: String },
    /// It was left out, for a failure at `stage`.
    Skipped { stage: Stage, cause: String },
}

/// An `Outcome` as texts.
pub enum OutcomeView {
    Written { output: Seq<char> },
    Skipped { stage: Stage, cause: Seq<char> },
}

impl View for Outcome {
    type V = OutcomeView;

    open spec fn view(&self) -> OutcomeView {
        match self {
            Outcome::Written { output } => OutcomeView::Written { output: output@ },
            Outcome::Skipped { stage, cause } => OutcomeView::Skipped {
                stage: *stage,
                cause: cause@,
            },
        }
    }
}

/// A document that the run is done with.
#[derive(Debug)]
pub struct Record {
    /// The path of the document.
    pub input: String,
    /// What became of it.
    pub outcome: Outcome,
}

/// A `Record` as texts.
pub struct RecordView {
    pub input: Seq<char>,
    pub outcome: OutcomeView,
}

impl View for Record {
    type V = RecordView;

    open spec fn view(&self) -> RecordView {
        RecordView { input: self.input@, outcome: self.outcome@ }
    }
}

/// A failure that was reported and changed nothing else.
#[derive(Debug)]
pub struct Notice {
    /// Where it happened.
    pub stage: Stage,
    /// Its cause, in words.
    pub cause: String,
}

/// A `Notice` as texts.
pub struct NoticeView {
    pub stage: Stage,
    pub cause: Seq<char>,
}

impl View for Notice {
    type V = NoticeView;

    open spec fn view(&self) -> NoticeView {
        NoticeView { stage: self.stage, cause: self.cause@ }
    }
}

/// The notices of a run as texts, in the order in which they were given.
pub open spec fn notices_view(notices: Seq<Notice>) -> Seq<NoticeView> {
    notices.map_values(|n: Notice| n@)
}

/// The records of a run as texts, in the order in which the documents ended.
pub open spec fn records_view(records: Seq<Record>) -> Seq<RecordView> {
    records.map_values(|r: Record| r@)
}

/// How many of the documents had their page written.
pub open spec fn written_count(records: Seq<RecordView>) -> nat
    decreases records.len(),
{
    if records.len() == 0 {
        0
    } else {
        let rest = written_count(records.drop_last());
        if records.last().outcome is Written {
            rest + 1
        } else {
            rest
        }
    }
}

/// Where every document but the one at `failed` had its page written, the
/// pages are one fewer than the documents.
pub proof fn lemma_one_failure_costs_one_page(records: Seq<RecordView>, failed: int)
    requires
        0 <= failed < records.len(),
        records[failed].outcome is Skipped,
        forall|i: int| 0 <= i < records.len() && i != failed ==> records[i].outcome is Written,
    ensures
        written_count(records) == records.len() - 1,
    decreases records.len(),
{
    let rest = records.drop_last();
    if failed == records.len() - 1 {
        lemma_all_written(rest);
    } else {
        lemma_one_failure_costs_one_page(rest, failed);
    }
}

/// Where every document had its page written, the pages are as many as the
/// documents.
pub proof fn lemma_all_written(records: Seq<RecordView>)
    requires
        forall|i: int| 0 <= i < records.len() ==> records[i].outcome is Written,
    ensures
        written_count(records) == records.len(),
    decreases records.len(),
{
    if records.len() > 0 {
        lemma_all_written(records.drop_last());
    }
}

/// Counts the documents whose page was written.
pub fn count_written(records: &Vec<Record>) -> (n: usize)
    ensures
        n == written_count(records_view(records@)),
{
    let mut n: usize = 0;
    let mut i: usize = 0;
    while i < records.len()
        invariant
            i <= records.len(),
            n == written_count(records_view(records@.subrange(0, i as int))),
            n <= i,
        decreases records.len() - i,
    {
        proof {
            let upto = records@.subrange(0, i as int + 1);
            assert(records_view(upto).drop_last() =~= records_view(records@.subrange(0, i as int)));
            assert(records_view(upto).last() == records@[i as int]@);
        }
        match records[i].outcome {
            Outcome::Written { .. } => {
                n += 1;
            },
            Outcome::Skipped { .. } => {},
        }
        i += 1;
    }
    assert(records@.subrange(0, i as int) =~= records@);
    n
}

} // verus!
