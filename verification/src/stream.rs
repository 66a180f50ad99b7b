//! What the stream filters have in common: the shape of a step's output and
//! of a whole run's output.

use crate::error::PipelineError;
use crate::event::{views, ParseEvent, ParseEventView};
use vstd::prelude::*;

verus! {

/// What a filter emits for one event: an event, nothing, or a failure.
pub type StepOutput = Result<Option<ParseEventView>, PipelineError>;

/// What a filter emits for a whole sequence of events.
pub type RunOutput = Result<Seq<ParseEventView>, PipelineError>;

/// What a step returned, with the event as its view.
pub open spec fn step_output_view(r: Result<Option<ParseEvent>, PipelineError>) -> StepOutput {
    match r {
        Ok(Some(event)) => Ok(Some(event@)),
        Ok(None) => Ok(None),
        Err(e) => Err(e),
    }
}

/// What a filter returned for a whole document, with the events as views.
pub open spec fn run_output_view(r: Result<Vec<ParseEvent>, PipelineError>) -> RunOutput {
    match r {
        Ok(events) => Ok(views(events@)),
        Err(e) => Err(e),
    }
}

/// The events that a step emitted: one or none.
pub open spec fn emitted(output: Option<ParseEventView>) -> Seq<ParseEventView> {
    match output {
        Some(event) => seq![event],
        None => Seq::empty(),
    }
}

/// `events` put in front of what a run gave, where the run succeeded.
pub open spec fn emitted_then(events: Seq<ParseEventView>, rest: RunOutput) -> RunOutput {
    match rest {
        Ok(more) => Ok(events + more),
        Err(e) => Err(e),
    }
}

/// Putting events in front in two goes is putting them in front at once.
pub proof fn lemma_emitted_then_twice(
    first: Seq<ParseEventView>,
    second: Seq<ParseEventView>,
    rest: RunOutput,
)
    ensures
        emitted_then(first, emitted_then(second, rest)) == emitted_then(first + second, rest),
{
    if let Ok(more) = rest {
        assert(first + (second + more) == (first + second) + more);
    }
}

/// Nothing put in front of a run leaves the run as it is.
pub proof fn lemma_emitted_then_nothing(rest: RunOutput)
    ensures
        emitted_then(Seq::empty(), rest) == rest,
{
    if let Ok(more) = rest {
        assert(Seq::<ParseEventView>::empty() + more == more);
    }
}

/// The views of a sequence of events with one more event at its end.
pub proof fn lemma_views_push(events: Seq<ParseEvent>, event: ParseEvent)
    ensures
        views(events.push(event)) == views(events) + seq![event@],
{
    assert(views(events.push(event)) =~= views(events) + seq![event@]);
}

} // verus!
