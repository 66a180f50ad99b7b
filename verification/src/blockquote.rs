//! The filter that turns marked blockquotes into callouts.

use crate::error::{html_result_view, PipelineError};
use crate::event::{views, ParseEvent, ParseEventView};
use crate::marker::{marker_of, parse_marker};
use crate::stream::{
    emitted, emitted_then, lemma_emitted_then_nothing, lemma_emitted_then_twice, lemma_views_push,
    run_output_view, step_output_view, RunOutput, StepOutput,
};
use crate::templates::{template_output, Templates};
use vstd::prelude::*;

verus! {

/// The visual variant of a callout.
#[derive(Debug, Clone, Copy, PartialEq, Eq)]
pub enum CalloutKind {
    /// A question.
    Question,
    /// A callout of no particular type.
    Generic,
}

/// The variant that a marker keyword selects: `question` selects the
/// question variant, every other keyword the generic one.
pub open spec fn callout_kind_of(keyword: Seq<char>) -> CalloutKind {
    if keyword == "question"@ {
        CalloutKind::Question
    } else {
        CalloutKind::Generic
    }
}

/// The type that the `blockquote` template is told of: `question` for the
/// question variant, none for the generic one.
pub open spec fn callout_type_name(kind: CalloutKind) -> Option<Seq<char>> {
    match kind {
        CalloutKind::Question => Some("question"@),
        CalloutKind::Generic => None,
    }
}

/// The fields handed to the `blockquote` template.
pub open spec fn blockquote_fields(kind: CalloutKind, contents: Seq<char>) -> Seq<
    (Seq<char>, Option<Seq<char>>),
> {
    seq![("blockquote_type"@, callout_type_name(kind)), ("contents"@, Some(contents))]
}

/// The `blockquote` template rendered over a callout of the given variant
/// and contents.
pub open spec fn callout_html(
    templates: Map<Seq<char>, Seq<char>>,
    kind: CalloutKind,
    contents: Seq<char>,
) -> Result<Seq<char>, PipelineError> {
    match template_output(templates, "blockquote"@, blockquote_fields(kind, contents)) {
        Some(html) => Ok(html),
        None => Err(PipelineError::TemplateRenderFailure),
    }
}

/// Selects the visual variant for a marker keyword. The keyword is compared
/// as written; an unknown keyword is no error.
pub fn callout_kind(keyword: &str) -> (kind: CalloutKind)
    ensures
        kind == callout_kind_of(keyword@),
{
    if keyword.to_owned() == "question".to_owned() {
        CalloutKind::Question
    } else {
        CalloutKind::Generic
    }
}

/// Renders a callout through the `blockquote` template.
pub fn format_callout_html(templates: &Templates, kind: CalloutKind, contents: &str) -> (r: Result<
    String,
    PipelineError,
>)
    ensures
        html_result_view(r) == callout_html(templates@, kind, contents@),
{
    let label = match kind {
        CalloutKind::Question => Some("question".to_owned()),
        CalloutKind::Generic => None,
    };
    let mut fields: Vec<(String, Option<String>)> = Vec::new();
    fields.push(("blockquote_type".to_owned(), label));
    fields.push(("contents".to_owned(), Some(contents.to_owned())));
    assert(fields.deep_view() =~= blockquote_fields(kind, contents@));
    match templates.render("blockquote", &fields) {
        Some(html) => Ok(html),
        None => Err(PipelineError::TemplateRenderFailure),
    }
}

/// What stands for a blockquote with the given text: for a text that opens
/// with a callout marker, the callout rendered as one HTML event; for any
/// other text, nothing.
pub open spec fn rendered_blockquote(templates: Map<Seq<char>, Seq<char>>, text: Seq<char>) -> StepOutput {
    match marker_of(text) {
        Some((keyword, body)) => match callout_html(templates, callout_kind_of(keyword), body) {
            Ok(html) => Ok(Some(ParseEventView::Html(html))),
            Err(e) => Err(e),
        },
        None => Ok(None),
    }
}

/// Every keyword gives a callout: a blockquote that opens with a marker is
/// rendered through the template whatever its keyword is, as a question
/// for the keyword `question` and as a generic callout for any other, and
/// fails only where the template does.
pub proof fn lemma_every_keyword_gives_a_callout(
    templates: Map<Seq<char>, Seq<char>>,
    text: Seq<char>,
)
    requires
        marker_of(text) is Some,
    ensures
        ({
            let (keyword, body) = marker_of(text)->0;
            let kind = if keyword == "question"@ {
                CalloutKind::Question
            } else {
                CalloutKind::Generic
            };
            rendered_blockquote(templates, text) == (match template_output(
                templates,
                "blockquote"@,
                blockquote_fields(kind, body),
            ) {
                Some(html) => Ok::<_, PipelineError>(Some(ParseEventView::Html(html))),
                None => Err(PipelineError::TemplateRenderFailure),
            })
        }),
{
}

/// Renders the blockquote whose text is `text`.
pub fn render_blockquote(templates: &Templates, text: &str) -> (r: Result<
    Option<ParseEvent>,
    PipelineError,
>)
    ensures
        step_output_view(r) == rendered_blockquote(templates@, text@),
{
    match parse_marker(text) {
        Some((keyword, body)) => {
            let kind = callout_kind(keyword.as_str());
            match format_callout_html(templates, kind, body.as_str()) {
                Ok(html) => Ok(Some(ParseEvent::Html(html))),
                Err(e) => Err(e),
            }
        },
        None => Ok(None),
    }
}

/// The state of the blockquote filter.
pub struct BlockquoteState {
    /// Whether a blockquote is open.
    pub buffering: bool,
    /// The text gathered since that blockquote was opened, each run of text
    /// followed by a line feed.
    pub buffer: Seq<char>,
}

/// The state before any event: no blockquote is open.
pub open spec fn blockquote_idle() -> BlockquoteState {
    BlockquoteState { buffering: false, buffer: Seq::empty() }
}

/// One step of the blockquote filter: the state after `event` and what is
/// emitted for it.
///
/// The start of a blockquote opens a fresh buffer and is held back. Text
/// inside an open blockquote is added to the buffer with a line feed after
/// it and is held back. The end of an open blockquote closes it and is
/// replaced by what stands for the blockquote. Every other event is handed
/// on unchanged.
pub open spec fn blockquote_step(
    templates: Map<Seq<char>, Seq<char>>,
    state: BlockquoteState,
    event: ParseEventView,
) -> (BlockquoteState, StepOutput) {
    match event {
        ParseEventView::BlockQuoteStart(_) => (
            BlockquoteState { buffering: true, buffer: Seq::empty() },
            Ok(None),
        ),
        ParseEventView::Text(text) => if state.buffering {
            (BlockquoteState { buffer: state.buffer + text + seq!['\n'], ..state }, Ok(None))
        } else {
            (state, Ok(Some(event)))
        },
        ParseEventView::BlockQuoteEnd(_) => if state.buffering {
            (
                BlockquoteState { buffering: false, ..state },
                rendered_blockquote(templates, state.buffer),
            )
        } else {
            (state, Ok(Some(event)))
        },
        _ => (state, Ok(Some(event))),
    }
}

/// The blockquote filter run over a sequence of events from a given state:
/// what it emits in all, or the first failure.
pub open spec fn blockquote_run(
    templates: Map<Seq<char>, Seq<char>>,
    state: BlockquoteState,
    events: Seq<ParseEventView>,
) -> RunOutput
    decreases events.len(),
{
    if events.len() == 0 {
        Ok(Seq::empty())
    } else {
        let (next, output) = blockquote_step(templates, state, events[0]);
        match output {
            Err(e) => Err(e),
            Ok(out) => emitted_then(
                emitted(out),
                blockquote_run(templates, next, events.skip(1)),
            ),
        }
    }
}

/// The filter never emits more events than it takes.
pub proof fn lemma_blockquote_run_no_longer(
    templates: Map<Seq<char>, Seq<char>>,
    state: BlockquoteState,
    events: Seq<ParseEventView>,
)
    ensures
        blockquote_run(templates, state, events) matches Ok(out) ==> out.len() <= events.len(),
    decreases events.len(),
{
    if events.len() > 0 {
        let (next, output) = blockquote_step(templates, state, events[0]);
        lemma_blockquote_run_no_longer(templates, next, events.skip(1));
    }
}

/// A run from the idle state over events that open no blockquote emits
/// them all as they are.
pub proof fn lemma_blockquote_run_without_quotes(
    templates: Map<Seq<char>, Seq<char>>,
    state: BlockquoteState,
    events: Seq<ParseEventView>,
)
    requires
        !state.buffering,
        forall|i: int| 0 <= i < events.len() ==> !(events[i] is BlockQuoteStart),
    ensures
        blockquote_run(templates, state, events) == Ok::<_, PipelineError>(events),
    decreases events.len(),
{
    if events.len() == 0 {
        assert(events == Seq::<ParseEventView>::empty());
    } else {
        let rest = events.skip(1);
        assert forall|i: int| 0 <= i < rest.len() implies !(rest[i] is BlockQuoteStart) by {
            assert(rest[i] == events[i + 1]);
        }
        lemma_blockquote_run_without_quotes(templates, state, rest);
        assert(seq![events[0]] + rest == events);
    }
}

/// What a successful run emits opens no blockquote.
pub proof fn lemma_blockquote_run_emits_no_quote_start(
    templates: Map<Seq<char>, Seq<char>>,
    state: BlockquoteState,
    events: Seq<ParseEventView>,
)
    ensures
        blockquote_run(templates, state, events) matches Ok(out) ==> forall|i: int|
            0 <= i < out.len() ==> !(#[trigger] out[i] is BlockQuoteStart),
    decreases events.len(),
{
    if events.len() > 0 {
        let (next, output) = blockquote_step(templates, state, events[0]);
        lemma_blockquote_run_emits_no_quote_start(templates, next, events.skip(1));
    }
}

/// Filtering a second time changes nothing: the filter run over what a run
/// from the idle state emitted gives that same sequence again.
pub proof fn lemma_blockquote_run_idempotent(
    templates: Map<Seq<char>, Seq<char>>,
    events: Seq<ParseEventView>,
)
    ensures
        blockquote_run(templates, blockquote_idle(), events) matches Ok(out) ==> blockquote_run(
            templates,
            blockquote_idle(),
            out,
        ) == Ok::<_, PipelineError>(out),
{
    lemma_blockquote_run_emits_no_quote_start(templates, blockquote_idle(), events);
    if let Ok(out) = blockquote_run(templates, blockquote_idle(), events) {
        lemma_blockquote_run_without_quotes(templates, blockquote_idle(), out);
    }
}

/// The blockquote filter: it takes the events of a document one at a time
/// and holds in memory no more than the text of the blockquote that is
/// open.
pub struct BlockquoteFormatter {
    buffering: bool,
    buffer: String,
}

impl View for BlockquoteFormatter {
    type V = BlockquoteState;

    closed spec fn view(&self) -> BlockquoteState {
        BlockquoteState { buffering: self.buffering, buffer: self.buffer@ }
    }
}

impl BlockquoteFormatter {
    /// A filter with no blockquote open.
    pub fn new() -> (filter: BlockquoteFormatter)
        ensures
            filter@ == blockquote_idle(),
    {
        BlockquoteFormatter { buffering: false, buffer: String::new() }
    }

    /// Whether a blockquote is open.
    pub fn is_buffering(&self) -> (b: bool)
        ensures
            b == self@.buffering,
    {
        self.buffering
    }

    /// Takes the next event of the document. Returns the event to hand on
    /// in its place, if any.
    pub fn step(&mut self, event: ParseEvent, templates: &Templates) -> (r: Result<
        Option<ParseEvent>,
        PipelineError,
    >)
        ensures
            (final(self)@, step_output_view(r)) == blockquote_step(
                templates@,
                old(self)@,
                event@,
            ),
    {
        match event {
            ParseEvent::BlockQuoteStart(_) => {
                self.buffering = true;
                self.buffer.clear();
                Ok(None)
            },
            ParseEvent::Text(text) => {
                if self.buffering {
                    self.buffer.push_str(text.as_str());
                    self.buffer.push('\n');
                    assert(self.buffer@ == old(self).buffer@ + text@ + seq!['\n']);
                    Ok(None)
                } else {
                    Ok(Some(ParseEvent::Text(text)))
                }
            },
            ParseEvent::BlockQuoteEnd(kind) => {
                if self.buffering {
                    self.buffering = false;
                    render_blockquote(templates, self.buffer.as_str())
                } else {
                    Ok(Some(ParseEvent::BlockQuoteEnd(kind)))
                }
            },
            other => Ok(Some(other)),
        }
    }
}

/// Replaces every blockquote of a document by what stands for it: a
/// callout rendered through the `blockquote` template where its text opens
/// with a marker, nothing otherwise. All other events come out unchanged
/// and in order. Stops at the first callout that cannot be rendered.
pub fn format_blockquotes(events: Vec<ParseEvent>, templates: &Templates) -> (r: Result<
    Vec<ParseEvent>,
    PipelineError,
>)
    ensures
        run_output_view(r) == blockquote_run(templates@, blockquote_idle(), views(events@)),
        r matches Ok(out) ==> out.len() <= events.len(),
{
    let ghost all = views(events@);
    let ghost goal = blockquote_run(templates@, blockquote_idle(), all);
    let mut filter = BlockquoteFormatter::new();
    let mut out: Vec<ParseEvent> = Vec::new();
    proof {
        lemma_blockquote_run_no_longer(templates@, blockquote_idle(), all);
        lemma_emitted_then_nothing(goal);
        assert(all.skip(0) == all);
        assert(views(out@) == Seq::<ParseEventView>::empty());
    }
    for event in it: events
        invariant
            views(it.seq()) == all,
            all == views(events@),
            goal == blockquote_run(templates@, blockquote_idle(), all),
            goal == emitted_then(
                views(out@),
                blockquote_run(templates@, filter@, all.skip(it.index() as int)),
            ),
    {
        let ghost before = out@;
        let ghost state = filter@;
        let ghost rest = all.skip(it.index() as int);
        proof {
            assert(rest[0] == event@);
            assert(rest.skip(1) == all.skip(it.index() + 1));
        }
        let stepped = filter.step(event, templates);
        proof {
            assert(blockquote_step(templates@, state, rest[0]) == (
                filter@,
                step_output_view(stepped),
            ));
            if let Ok(output) = step_output_view(stepped) {
                lemma_emitted_then_twice(
                    views(before),
                    emitted(output),
                    blockquote_run(templates@, filter@, rest.skip(1)),
                );
            }
        }
        match stepped {
            Err(e) => {
                return Err(e);
            },
            Ok(Some(emit)) => {
                out.push(emit);
                proof {
                    lemma_views_push(before, emit);
                }
            },
            Ok(None) => {
                assert(views(before) + Seq::<ParseEventView>::empty() == views(before));
            },
        }
    }
    proof {
        assert(all.skip(all.len() as int) == Seq::<ParseEventView>::empty());
        assert(views(out@) + Seq::<ParseEventView>::empty() == views(out@));
    }
    Ok(out)
}

} // verus!
