//! Whole runs of the generator: what holds of every sequence of steps.

use vstd::prelude::*;
use crate::config::ConfigView;
use crate::generator::{transition, ActionView, EventView, GeneratorView};
use crate::markdown::MarkdownOptions;
use crate::paths::{is_markdown, output_path_of};
use crate::report::{severity_of, written_count, OutcomeView, RecordView, Severity};
use crate::template::{page_name, template_parses};

verus! {

/// The states that a run passes through, with the events that lead from
/// each to the next.
pub open spec fn is_run(states: Seq<GeneratorView>, events: Seq<EventView>) -> bool {
    &&& states.len() == events.len() + 1
    &&& forall|i: int|
        #![trigger events[i]]
        0 <= i < events.len() ==> transition(states[i], events[i], states[i + 1])
}

/// Whether the run is at work on a document.
pub open spec fn in_flight(pending: ActionView) -> nat {
    match pending {
        ActionView::CreateParentDirectories { .. }
        | ActionView::ReadSource { .. }
        | ActionView::ParseMetadata { .. }
        | ActionView::RenderPage { .. }
        | ActionView::WritePage { .. } => 1,
        _ => 0,
    }
}

/// The event hands the run a new document: the walk was asked for an entry
/// and gives a Markdown file.
pub open spec fn discovers(pre: GeneratorView, event: EventView) -> bool {
    &&& pre.pending is NextEntry
    &&& event matches EventView::Entry(Some(path))
    &&& is_markdown(path)
}

/// The event reports a metadata block that does not parse.
pub open spec fn malformed(pre: GeneratorView, event: EventView) -> bool {
    &&& pre.pending is ParseMetadata
    &&& event matches EventView::Metadata(Err(_))
}

/// The step leaves a document out for another reason than its metadata.
pub open spec fn fails_otherwise(pre: GeneratorView, event: EventView, post: GeneratorView) -> bool {
    &&& post.records.len() == pre.records.len() + 1
    &&& post.records.last().outcome is Skipped
    &&& !malformed(pre, event)
}

/// How many documents the first `n` steps of a run discover.
pub open spec fn discovered(states: Seq<GeneratorView>, events: Seq<EventView>, n: nat) -> nat
    decreases n,
{
    if n == 0 {
        0
    } else {
        let before = discovered(states, events, (n - 1) as nat);
        if discovers(states[n - 1], events[n - 1]) {
            before + 1
        } else {
            before
        }
    }
}

/// How many metadata blocks the first `n` steps of a run find malformed.
pub open spec fn malformed_count(states: Seq<GeneratorView>, events: Seq<EventView>, n: nat) -> nat
    decreases n,
{
    if n == 0 {
        0
    } else {
        let before = malformed_count(states, events, (n - 1) as nat);
        if malformed(states[n - 1], events[n - 1]) {
            before + 1
        } else {
            before
        }
    }
}

/// The page `output` is the one of the Markdown document `input`: it lies
/// under the output directory where the document lies under the source
/// directory, with the extension replaced.
pub open spec fn mirrors(config: ConfigView, input: Seq<char>, output: Seq<char>) -> bool {
    is_markdown(input) && output_path_of(config.source_dir, config.output_dir, input) == Some(
        output,
    )
}

/// The page that the run is at work on is the one of its document.
pub open spec fn placed(config: ConfigView, pending: ActionView) -> bool {
    match pending {
        ActionView::CreateParentDirectories { input, output }
        | ActionView::ReadSource { input, output }
        | ActionView::ParseMetadata { input, output, .. }
        | ActionView::RenderPage { input, output, .. }
        | ActionView::WritePage { input, output, .. } => mirrors(config, input, output),
        _ => true,
    }
}

/// A page that was written is the one of its document.
pub open spec fn recorded_in_place(config: ConfigView, record: RecordView) -> bool {
    match record.outcome {
        OutcomeView::Written { output } => mirrors(config, record.input, output),
        OutcomeView::Skipped { .. } => true,
    }
}

/// What holds of every state of a run that began with `config` and
/// `options`: they do not change; once the template is read, the run holds a
/// template that the engine accepts; the run has failed only at a stage that
/// is fatal, and has noted only failures that are not; and each page, in work
/// or written, is the one of its document.
pub open spec fn sound(config: ConfigView, options: MarkdownOptions, state: GeneratorView) -> bool {
    &&& state.config == config
    &&& state.options == options
    &&& !(state.pending is ReadTemplate || state.pending is Abort) ==> (state.template matches Some(
        source,
    ) && template_parses(page_name(), source))
    &&& state.pending matches ActionView::Abort { stage, .. } ==> severity_of(stage)
        == Severity::Fatal
    &&& placed(config, state.pending)
    &&& forall|k: int|
        0 <= k < state.records.len() ==> recorded_in_place(config, #[trigger] state.records[k])
    &&& forall|k: int|
        0 <= k < state.notices.len() ==> severity_of((#[trigger] state.notices[k]).stage)
            == Severity::Logged
}

proof fn lemma_step_stays_sound(
    config: ConfigView,
    options: MarkdownOptions,
    pre: GeneratorView,
    event: EventView,
    post: GeneratorView,
)
    requires
        sound(config, options, pre),
        transition(pre, event, post),
    ensures
        sound(config, options, post),
{
    assert forall|k: int| 0 <= k < post.records.len() implies recorded_in_place(
        config,
        #[trigger] post.records[k],
    ) by {
        if k < pre.records.len() {
            assert(post.records[k] == pre.records[k]);
        }
    }
    assert forall|k: int| 0 <= k < post.notices.len() implies severity_of(
        (#[trigger] post.notices[k]).stage,
    ) == Severity::Logged by {
        if k < pre.notices.len() {
            assert(post.notices[k] == pre.notices[k]);
        }
    }
}

/// Every state of a run from its very beginning is sound.
pub proof fn lemma_run_stays_sound(
    states: Seq<GeneratorView>,
    events: Seq<EventView>,
    config: ConfigView,
    options: MarkdownOptions,
    i: int,
)
    requires
        is_run(states, events),
        states[0] == GeneratorView::initial(config, options),
        0 <= i < states.len(),
    ensures
        sound(config, options, states[i]),
    decreases i,
{
    if i > 0 {
        lemma_run_stays_sound(states, events, config, options, i - 1);
        let event = events[i - 1];
        assert(transition(states[i - 1], event, states[i - 1 + 1]));
        lemma_step_stays_sound(config, options, states[i - 1], event, states[i]);
    }
}

/// The output tree mirrors the source tree over a whole run: whenever a run
/// from its very beginning has a page written, the page belongs to a
/// Markdown document at the place under the output directory that answers to
/// the document's place under the source directory.
pub proof fn lemma_pages_mirror_sources(
    states: Seq<GeneratorView>,
    events: Seq<EventView>,
    config: ConfigView,
    options: MarkdownOptions,
    i: int,
    k: int,
)
    requires
        is_run(states, events),
        states[0] == GeneratorView::initial(config, options),
        0 <= i < states.len(),
        0 <= k < states[i].records.len(),
    ensures
        states[i].records[k].outcome matches OutcomeView::Written { output } ==> is_markdown(
            states[i].records[k].input,
        ) && output_path_of(config.source_dir, config.output_dir, states[i].records[k].input)
            == Some(output),
{
    lemma_run_stays_sound(states, events, config, options, i);
    assert(recorded_in_place(config, states[i].records[k]));
}

/// One step of a run that is past its setup: the run stays so or finishes,
/// a discovered document is in work until it is recorded, and a recorded
/// document is without a page only if its metadata was malformed or the step
/// failed otherwise.
proof fn lemma_step_counts(pre: GeneratorView, event: EventView, post: GeneratorView)
    requires
        transition(pre, event, post),
        pre.pending.is_past_setup() || pre.pending is Finish,
        !fails_otherwise(pre, event, post),
    ensures
        post.pending.is_past_setup() || post.pending is Finish,
        post.records.len() + in_flight(post.pending) == pre.records.len() + in_flight(pre.pending)
            + (if discovers(pre, event) {
            1nat
        } else {
            0nat
        }),
        post.records.len() - written_count(post.records) == pre.records.len() - written_count(
            pre.records,
        ) + (if malformed(pre, event) {
            1nat
        } else {
            0nat
        }),
{
    if post.records != pre.records {
        assert(post.records.len() == pre.records.len() + 1);
        assert(post.records.drop_last() =~= pre.records);
        assert(written_count(post.records) == written_count(pre.records) + (if post.records.last().outcome is Written {
            1nat
        } else {
            0nat
        }));
    }
}

proof fn lemma_run_counts(states: Seq<GeneratorView>, events: Seq<EventView>, n: nat)
    requires
        is_run(states, events),
        n <= events.len(),
        states[0].pending == ActionView::NextEntry,
        states[0].records.len() == 0,
        forall|i: int|
            #![trigger events[i]]
            0 <= i < events.len() ==> !fails_otherwise(states[i], events[i], states[i + 1]),
    ensures
        states[n as int].pending.is_past_setup() || states[n as int].pending is Finish,
        states[n as int].records.len() + in_flight(states[n as int].pending) == discovered(
            states,
            events,
            n,
        ),
        states[n as int].records.len() - written_count(states[n as int].records)
            == malformed_count(states, events, n),
    decreases n,
{
    if n == 0 {
        assert(states[0].records =~= Seq::empty());
    } else {
        let i = (n - 1) as int;
        lemma_run_counts(states, events, (n - 1) as nat);
        let event = events[i];
        assert(transition(states[i], event, states[i + 1]));
        assert(!fails_otherwise(states[i], event, states[i + 1]));
        lemma_step_counts(states[i], event, states[i + 1]);
    }
}

/// One bad document never costs more than its own page. Take a run from the
/// moment its site is set up to its end, in which the only failures are
/// metadata blocks that do not parse, and exactly one block does not: the run
/// ends in success, never having failed as a whole, every document that was
/// discovered is recorded, and all but one have their page written.
pub proof fn lemma_isolation(states: Seq<GeneratorView>, events: Seq<EventView>)
    requires
        is_run(states, events),
        states[0].pending == ActionView::NextEntry,
        states[0].records.len() == 0,
        states.last().pending is Finish || states.last().pending is Abort,
        forall|i: int|
            #![trigger events[i]]
            0 <= i < events.len() ==> !fails_otherwise(states[i], events[i], states[i + 1]),
        malformed_count(states, events, events.len()) == 1,
    ensures
        states.last().pending is Finish,
        forall|i: int| 0 <= i < states.len() ==> !(#[trigger] states[i].pending is Abort),
        states.last().records.len() == discovered(states, events, events.len()),
        written_count(states.last().records) == discovered(states, events, events.len()) - 1,
{
    lemma_run_counts(states, events, events.len());
    assert forall|i: int| 0 <= i < states.len() implies !(#[trigger] states[i].pending is Abort) by {
        lemma_run_counts(states, events, i as nat);
    }
}

} // verus!
