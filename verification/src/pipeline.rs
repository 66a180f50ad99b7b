//! The two filters in a row, one event at a time: what the code block
//! filter hands on goes to the blockquote filter at once.

use crate::blockquote::{
    blockquote_idle, blockquote_run, blockquote_step, BlockquoteFormatter, BlockquoteState,
};
use crate::codeblock::{
    codeblock_idle, highlight_run, highlight_step, CodeBlockHighlighter, CodeBlockState,
};
use crate::engine::Engine;
use crate::error::PipelineError;
use crate::event::{views, ParseEvent, ParseEventView};
use crate::stream::{
    emitted, emitted_then, lemma_emitted_then_nothing, lemma_emitted_then_twice, lemma_views_push,
    run_output_view, step_output_view, RunOutput, StepOutput,
};
use crate::templates::Templates;
use vstd::prelude::*;

verus! {

/// The states of the two filters.
pub struct PipelineState {
    pub codeblocks: CodeBlockState,
    pub blockquotes: BlockquoteState,
}

/// The state before any event: both filters idle.
pub open spec fn pipeline_idle() -> PipelineState {
    PipelineState { codeblocks: codeblock_idle(), blockquotes: blockquote_idle() }
}

/// One step of the pipeline: the code block filter takes the event, and
/// what it hands on, if anything, the blockquote filter takes in turn.
pub open spec fn pipeline_step(
    theme: syntastica::theme::ResolvedTheme,
    templates: Map<Seq<char>, Seq<char>>,
    state: PipelineState,
    event: ParseEventView,
) -> (PipelineState, StepOutput) {
    let (codeblocks, highlighted) = highlight_step(theme, templates, state.codeblocks, event);
    match highlighted {
        Ok(Some(passed)) => {
            let (blockquotes, formatted) = blockquote_step(templates, state.blockquotes, passed);
            (PipelineState { codeblocks, blockquotes }, formatted)
        },
        Ok(None) => (PipelineState { codeblocks, ..state }, Ok(None)),
        Err(e) => (PipelineState { codeblocks, ..state }, Err(e)),
    }
}

/// The pipeline run over a sequence of events from a given state: what it
/// emits in all, or the first failure in the order of the events.
pub open spec fn pipeline_run(
    theme: syntastica::theme::ResolvedTheme,
    templates: Map<Seq<char>, Seq<char>>,
    state: PipelineState,
    events: Seq<ParseEventView>,
) -> RunOutput
    decreases events.len(),
{
    if events.len() == 0 {
        Ok(Seq::empty())
    } else {
        let (next, output) = pipeline_step(theme, templates, state, events[0]);
        match output {
            Err(e) => Err(e),
            Ok(out) => emitted_then(
                emitted(out),
                pipeline_run(theme, templates, next, events.skip(1)),
            ),
        }
    }
}

/// The code block filter run over all the events, then the blockquote
/// filter run over all that it emitted.
pub open spec fn filters_in_turn(
    theme: syntastica::theme::ResolvedTheme,
    templates: Map<Seq<char>, Seq<char>>,
    state: PipelineState,
    events: Seq<ParseEventView>,
) -> RunOutput {
    match highlight_run(theme, templates, state.codeblocks, events) {
        Ok(highlighted) => blockquote_run(templates, state.blockquotes, highlighted),
        Err(e) => Err(e),
    }
}

/// Event by event or filter by filter comes to the same: the pipeline
/// succeeds exactly when the two filters run in turn succeed, and then both
/// emit the same events. Where they fail, the failure they report may
/// differ: the pipeline reports the first in the order of the events.
pub proof fn lemma_pipeline_is_filters_in_turn(
    theme: syntastica::theme::ResolvedTheme,
    templates: Map<Seq<char>, Seq<char>>,
    state: PipelineState,
    events: Seq<ParseEventView>,
)
    ensures
        pipeline_run(theme, templates, state, events) is Ok <==> filters_in_turn(
            theme,
            templates,
            state,
            events,
        ) is Ok,
        pipeline_run(theme, templates, state, events) is Ok ==> pipeline_run(
            theme,
            templates,
            state,
            events,
        ) == filters_in_turn(theme, templates, state, events),
    decreases events.len(),
{
    if events.len() == 0 {
    } else {
        let rest = events.skip(1);
        let (codeblocks, highlighted) = highlight_step(
            theme,
            templates,
            state.codeblocks,
            events[0],
        );
        let (next, output) = pipeline_step(theme, templates, state, events[0]);
        lemma_pipeline_is_filters_in_turn(theme, templates, next, rest);
        let later = highlight_run(theme, templates, codeblocks, rest);
        match highlighted {
            Err(_) => {},
            Ok(None) => {
                lemma_emitted_then_nothing(later);
                lemma_emitted_then_nothing(pipeline_run(theme, templates, next, rest));
            },
            Ok(Some(passed)) => {
                let (blockquotes, formatted) = blockquote_step(
                    templates,
                    state.blockquotes,
                    passed,
                );
                if let Ok(more) = later {
                    let all = seq![passed] + more;
                    assert(all[0] == passed);
                    assert(all.skip(1) == more);
                }
            },
        }
    }
}

/// The pipeline never emits more events than it takes.
pub proof fn lemma_pipeline_run_no_longer(
    theme: syntastica::theme::ResolvedTheme,
    templates: Map<Seq<char>, Seq<char>>,
    state: PipelineState,
    events: Seq<ParseEventView>,
)
    ensures
        pipeline_run(theme, templates, state, events) matches Ok(out) ==> out.len()
            <= events.len(),
    decreases events.len(),
{
    if events.len() > 0 {
        let (next, output) = pipeline_step(theme, templates, state, events[0]);
        lemma_pipeline_run_no_longer(theme, templates, next, events.skip(1));
    }
}

/// The two filters in a row. It takes the events of a document one at a
/// time and holds in memory no more than the text of the one block that is
/// open in each filter.
pub struct Pipeline {
    codeblocks: CodeBlockHighlighter,
    blockquotes: BlockquoteFormatter,
}

impl View for Pipeline {
    type V = PipelineState;

    closed spec fn view(&self) -> PipelineState {
        PipelineState { codeblocks: self.codeblocks@, blockquotes: self.blockquotes@ }
    }
}

impl Pipeline {
    /// A pipeline with both filters idle.
    pub fn new() -> (pipeline: Pipeline)
        ensures
            pipeline@ == pipeline_idle(),
    {
        Pipeline { codeblocks: CodeBlockHighlighter::new(), blockquotes: BlockquoteFormatter::new() }
    }

    /// Takes the next event of the document. Returns the event to hand on
    /// in its place, if any.
    pub fn step(&mut self, event: ParseEvent, engine: &Engine, templates: &Templates) -> (r: Result<
        Option<ParseEvent>,
        PipelineError,
    >)
        ensures
            (final(self)@, step_output_view(r)) == pipeline_step(
                engine@,
                templates@,
                old(self)@,
                event@,
            ),
    {
        match self.codeblocks.step(event, engine, templates) {
            Ok(Some(passed)) => self.blockquotes.step(passed, templates),
            Ok(None) => Ok(None),
            Err(e) => Err(e),
        }
    }
}

/// Runs the events of a document through both filters, one event at a
/// time. Stops at the first block or callout that cannot be rendered.
pub fn run_pipeline(events: Vec<ParseEvent>, engine: &Engine, templates: &Templates) -> (r: Result<
    Vec<ParseEvent>,
    PipelineError,
>)
    ensures
        run_output_view(r) == pipeline_run(engine@, templates@, pipeline_idle(), views(events@)),
        r matches Ok(out) ==> out.len() <= events.len(),
{
    let ghost all = views(events@);
    let ghost goal = pipeline_run(engine@, templates@, pipeline_idle(), all);
    let mut pipeline = Pipeline::new();
    let mut out: Vec<ParseEvent> = Vec::new();
    proof {
        lemma_pipeline_run_no_longer(engine@, templates@, pipeline_idle(), all);
        lemma_emitted_then_nothing(goal);
        assert(all.skip(0) == all);
        assert(views(out@) == Seq::<ParseEventView>::empty());
    }
    for event in it: events
        invariant
            views(it.seq()) == all,
            all == views(events@),
            goal == pipeline_run(engine@, templates@, pipeline_idle(), all),
            goal == emitted_then(
                views(out@),
                pipeline_run(engine@, templates@, pipeline@, all.skip(it.index() as int)),
            ),
    {
        let ghost before = out@;
        let ghost state = pipeline@;
        let ghost rest = all.skip(it.index() as int);
        proof {
            assert(rest[0] == event@);
            assert(rest.skip(1) == all.skip(it.index() + 1));
        }
        let stepped = pipeline.step(event, engine, templates);
        proof {
            assert(pipeline_step(engine@, templates@, state, rest[0]) == (
                pipeline@,
                step_output_view(stepped),
            ));
            if let Ok(output) = step_output_view(stepped) {
                lemma_emitted_then_twice(
                    views(before),
                    emitted(output),
                    pipeline_run(engine@, templates@, pipeline@, rest.skip(1)),
                );
            }
        }
        match stepped {
            Err(e) => {
                return Err(e);
            },
            Ok(Some(emit)) => {
                out.push(emit);
                proof {
                    lemma_views_push(before, emit);
                }
            },
            Ok(None) => {
                assert(views(before) + Seq::<ParseEventView>::empty() == views(before));
            },
        }
    }
    proof {
        assert(all.skip(all.len() as int) == Seq::<ParseEventView>::empty());
        assert(views(out@) + Seq::<ParseEventView>::empty() == views(out@));
    }
    Ok(out)
}

} // verus!
