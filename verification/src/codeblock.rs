//! The filter that replaces fenced code blocks by highlighted HTML.

use crate::engine::{
    escape_html_text, escape_text, highlight_result_view, highlighted_html, highlights_html,
    highlights_of, language_named, Engine, HighlightError,
};
use crate::error::{html_result_view, PipelineError};
use crate::event::{views, ParseEvent, ParseEventView};
use crate::stream::{
    emitted, emitted_then, lemma_emitted_then_nothing, lemma_emitted_then_twice, lemma_views_push,
    run_output_view, step_output_view, RunOutput, StepOutput,
};
use crate::templates::{template_output, Templates};
use vstd::prelude::*;

verus! {

/// The fields handed to the `codeblock` template.
pub open spec fn codeblock_fields(lang: Seq<char>, contents: Seq<char>) -> Seq<
    (Seq<char>, Option<Seq<char>>),
> {
    seq![("lang"@, Some(lang)), ("contents"@, Some(contents))]
}

/// The `codeblock` template rendered over `contents` and the language
/// label, which is empty where no language is given.
pub open spec fn codeblock_html(
    templates: Map<Seq<char>, Seq<char>>,
    contents: Seq<char>,
    lang: Option<Seq<char>>,
) -> Result<Seq<char>, PipelineError> {
    let label = match lang {
        Some(name) => name,
        None => Seq::empty(),
    };
    match template_output(templates, "codeblock"@, codeblock_fields(label, contents)) {
        Some(html) => Ok(html),
        None => Err(PipelineError::TemplateRenderFailure),
    }
}

/// Wraps the contents of a code block in the `codeblock` template, with the
/// language as its label; without a language the label is empty.
pub fn format_codeblock_html(templates: &Templates, input: &str, lang: Option<&str>) -> (r: Result<
    String,
    PipelineError,
>)
    ensures
        html_result_view(r) == codeblock_html(templates@, input@, lang.deep_view()),
{
    let label = match lang {
        Some(name) => name.to_owned(),
        None => String::new(),
    };
    let mut fields: Vec<(String, Option<String>)> = Vec::new();
    fields.push(("lang".to_owned(), Some(label)));
    fields.push(("contents".to_owned(), Some(input.to_owned())));
    assert(fields.deep_view() =~= codeblock_fields(label@, input@));
    match templates.render("codeblock", &fields) {
        Some(html) => Ok(html),
        None => Err(PipelineError::TemplateRenderFailure),
    }
}

/// The HTML that stands for a fenced code block with the given language
/// tag and text.
///
/// Where the tag names a supported language, the text is highlighted and
/// wrapped with the tag as label. Otherwise the text is escaped and wrapped
/// with an empty label. A failure of the engine or of the template is an
/// error.
pub open spec fn rendered_codeblock(
    theme: syntastica::theme::ResolvedTheme,
    templates: Map<Seq<char>, Seq<char>>,
    language: Option<Seq<char>>,
    code: Seq<char>,
) -> Result<Seq<char>, PipelineError> {
    match language {
        Some(name) => wrapped_codeblock(templates, name, code, highlighted_html(theme, name, code)),
        None => codeblock_html(templates, escape_text(code), None),
    }
}

/// A block without a language tag, or with a tag that names no supported
/// language, is rendered as its escaped text under an empty label; the
/// engine is not asked, so the contents hold no highlighting markup.
pub proof fn lemma_unrecognized_language_is_escaped(
    theme: syntastica::theme::ResolvedTheme,
    templates: Map<Seq<char>, Seq<char>>,
    language: Option<Seq<char>>,
    code: Seq<char>,
)
    requires
        language matches Some(name) ==> language_named(name) is None,
    ensures
        rendered_codeblock(theme, templates, language, code) == codeblock_html(
            templates,
            escape_text(code),
            None,
        ),
{
}

/// A block whose tag names a supported language is rendered as what the
/// engine makes of exactly its text, under the tag as label; where the
/// engine fails, so does the rendering.
pub proof fn lemma_recognized_language_is_highlighted(
    theme: syntastica::theme::ResolvedTheme,
    templates: Map<Seq<char>, Seq<char>>,
    name: Seq<char>,
    code: Seq<char>,
)
    requires
        language_named(name) is Some,
    ensures
        rendered_codeblock(theme, templates, Some(name), code) == (match highlights_of(
            code,
            language_named(name)->0,
        ) {
            Some(highlights) => codeblock_html(
                templates,
                highlights_html(highlights, theme),
                Some(name),
            ),
            None => Err(PipelineError::HighlightEngineFailure),
        }),
{
}

/// The HTML for a block with the language tag `name`, given what the
/// engine made of its text: highlighted markup is wrapped under the tag as
/// label; where the engine knows no such language the escaped text is
/// wrapped under an empty label; a failure of the engine is handed on.
pub open spec fn wrapped_codeblock(
    templates: Map<Seq<char>, Seq<char>>,
    name: Seq<char>,
    code: Seq<char>,
    highlighted: Result<Seq<char>, HighlightError>,
) -> Result<Seq<char>, PipelineError> {
    match highlighted {
        Ok(markup) => codeblock_html(templates, markup, Some(name)),
        Err(HighlightError::UnsupportedLanguage) => codeblock_html(
            templates,
            escape_text(code),
            None,
        ),
        Err(HighlightError::EngineFailure) => Err(PipelineError::HighlightEngineFailure),
    }
}

/// Wraps a block with the language tag `name` and the text `code`, given
/// what the engine made of the text.
pub fn wrap_highlighted(
    templates: &Templates,
    name: &str,
    code: &str,
    highlighted: Result<String, HighlightError>,
) -> (r: Result<String, PipelineError>)
    ensures
        html_result_view(r) == wrapped_codeblock(
            templates@,
            name@,
            code@,
            highlight_result_view(highlighted),
        ),
{
    match highlighted {
        Ok(markup) => format_codeblock_html(templates, markup.as_str(), Some(name)),
        Err(HighlightError::UnsupportedLanguage) => {
            let escaped = escape_html_text(code);
            format_codeblock_html(templates, escaped.as_str(), None)
        },
        Err(HighlightError::EngineFailure) => Err(PipelineError::HighlightEngineFailure),
    }
}

/// Renders a fenced code block with the given language tag and text.
pub fn render_codeblock(
    engine: &Engine,
    templates: &Templates,
    language: Option<&str>,
    code: &str,
) -> (r: Result<String, PipelineError>)
    ensures
        html_result_view(r) == rendered_codeblock(
            engine@,
            templates@,
            language.deep_view(),
            code@,
        ),
{
    match language {
        Some(name) => wrap_highlighted(templates, name, code, engine.highlight(name, code)),
        None => {
            let escaped = escape_html_text(code);
            format_codeblock_html(templates, escaped.as_str(), None)
        },
    }
}

/// The state of the code block filter.
pub struct CodeBlockState {
    /// Whether a fenced code block is open.
    pub buffering: bool,
    /// The language tag of the block that was opened last.
    pub language: Option<Seq<char>>,
    /// The text gathered since that block was opened.
    pub buffer: Seq<char>,
}

/// The state before any event: no block is open.
pub open spec fn codeblock_idle() -> CodeBlockState {
    CodeBlockState { buffering: false, language: None, buffer: Seq::empty() }
}

/// One step of the code block filter: the state after `event` and what is
/// emitted for it.
///
/// The start of a fenced block opens a fresh buffer and is held back. Text
/// inside an open block is added to the buffer and held back. The end of an
/// open block closes it and is replaced by one HTML event for the whole
/// block. Every other event is handed on unchanged.
pub open spec fn highlight_step(
    theme: syntastica::theme::ResolvedTheme,
    templates: Map<Seq<char>, Seq<char>>,
    state: CodeBlockState,
    event: ParseEventView,
) -> (CodeBlockState, StepOutput) {
    match event {
        ParseEventView::CodeBlockStart(lang) => (
            CodeBlockState { buffering: true, language: Some(lang), buffer: Seq::empty() },
            Ok(None),
        ),
        ParseEventView::Text(text) => if state.buffering {
            (CodeBlockState { buffer: state.buffer + text, ..state }, Ok(None))
        } else {
            (state, Ok(Some(event)))
        },
        ParseEventView::CodeBlockEnd => if state.buffering {
            (
                CodeBlockState { buffering: false, ..state },
                match rendered_codeblock(theme, templates, state.language, state.buffer) {
                    Ok(html) => Ok(Some(ParseEventView::Html(html))),
                    Err(e) => Err(e),
                },
            )
        } else {
            (state, Ok(Some(event)))
        },
        _ => (state, Ok(Some(event))),
    }
}

/// The code block filter: it takes the events of a document one at a time
/// and holds in memory no more than the text of the block that is open.
pub struct CodeBlockHighlighter {
    buffering: bool,
    language: Option<String>,
    buffer: String,
}

impl View for CodeBlockHighlighter {
    type V = CodeBlockState;

    closed spec fn view(&self) -> CodeBlockState {
        CodeBlockState {
            buffering: self.buffering,
            language: self.language.deep_view(),
            buffer: self.buffer@,
        }
    }
}

impl CodeBlockHighlighter {
    /// A filter with no block open.
    pub fn new() -> (filter: CodeBlockHighlighter)
        ensures
            filter@ == codeblock_idle(),
    {
        CodeBlockHighlighter { buffering: false, language: None, buffer: String::new() }
    }

    /// Whether a fenced code block is open.
    pub fn is_buffering(&self) -> (b: bool)
        ensures
            b == self@.buffering,
    {
        self.buffering
    }

    /// Takes the next event of the document. Returns the event to hand on
    /// in its place, if any.
    pub fn step(&mut self, event: ParseEvent, engine: &Engine, templates: &Templates) -> (r: Result<
        Option<ParseEvent>,
        PipelineError,
    >)
        ensures
            (final(self)@, step_output_view(r)) == highlight_step(
                engine@,
                templates@,
                old(self)@,
                event@,
            ),
    {
        match event {
            ParseEvent::CodeBlockStart(lang) => {
                self.buffering = true;
                self.language = Some(lang);
                self.buffer.clear();
                Ok(None)
            },
            ParseEvent::Text(text) => {
                if self.buffering {
                    self.buffer.push_str(text.as_str());
                    Ok(None)
                } else {
                    Ok(Some(ParseEvent::Text(text)))
                }
            },
            ParseEvent::CodeBlockEnd => {
                if self.buffering {
                    self.buffering = false;
                    let rendered = match &self.language {
                        Some(name) => render_codeblock(
                            engine,
                            templates,
                            Some(name.as_str()),
                            self.buffer.as_str(),
                        ),
                        None => render_codeblock(engine, templates, None, self.buffer.as_str()),
                    };
                    match rendered {
                        Ok(html) => Ok(Some(ParseEvent::Html(html))),
                        Err(e) => Err(e),
                    }
                } else {
                    Ok(Some(ParseEvent::CodeBlockEnd))
                }
            },
            other => Ok(Some(other)),
        }
    }
}

/// While no block is open the filter holds nothing back but the start of a
/// fenced block: any other event leaves the state as it is and is handed on
/// unchanged.
pub proof fn lemma_highlight_step_outside_block(
    theme: syntastica::theme::ResolvedTheme,
    templates: Map<Seq<char>, Seq<char>>,
    state: CodeBlockState,
    event: ParseEventView,
)
    requires
        !state.buffering,
        !(event is CodeBlockStart),
    ensures
        highlight_step(theme, templates, state, event) == (state, Ok::<_, PipelineError>(Some(event))),
{
}

/// The code block filter run over a sequence of events from a given state:
/// what it emits in all, or the first failure.
pub open spec fn highlight_run(
    theme: syntastica::theme::ResolvedTheme,
    templates: Map<Seq<char>, Seq<char>>,
    state: CodeBlockState,
    events: Seq<ParseEventView>,
) -> RunOutput
    decreases events.len(),
{
    if events.len() == 0 {
        Ok(Seq::empty())
    } else {
        let (next, output) = highlight_step(theme, templates, state, events[0]);
        match output {
            Err(e) => Err(e),
            Ok(out) => emitted_then(
                emitted(out),
                highlight_run(theme, templates, next, events.skip(1)),
            ),
        }
    }
}

/// The filter never emits more events than it takes.
pub proof fn lemma_highlight_run_no_longer(
    theme: syntastica::theme::ResolvedTheme,
    templates: Map<Seq<char>, Seq<char>>,
    state: CodeBlockState,
    events: Seq<ParseEventView>,
)
    ensures
        highlight_run(theme, templates, state, events) matches Ok(out) ==> out.len()
            <= events.len(),
    decreases events.len(),
{
    if events.len() > 0 {
        let (next, output) = highlight_step(theme, templates, state, events[0]);
        lemma_highlight_run_no_longer(theme, templates, next, events.skip(1));
    }
}

/// Outside an open block the filter changes nothing: a run from the idle
/// state over events that open no fenced code block emits them all as they
/// are.
pub proof fn lemma_highlight_run_without_blocks(
    theme: syntastica::theme::ResolvedTheme,
    templates: Map<Seq<char>, Seq<char>>,
    state: CodeBlockState,
    events: Seq<ParseEventView>,
)
    requires
        !state.buffering,
        forall|i: int| 0 <= i < events.len() ==> !(events[i] is CodeBlockStart),
    ensures
        highlight_run(theme, templates, state, events) == Ok::<_, PipelineError>(events),
    decreases events.len(),
{
    if events.len() == 0 {
        assert(events == Seq::<ParseEventView>::empty());
    } else {
        let rest = events.skip(1);
        assert forall|i: int| 0 <= i < rest.len() implies !(rest[i] is CodeBlockStart) by {
            assert(rest[i] == events[i + 1]);
        }
        lemma_highlight_run_without_blocks(theme, templates, state, rest);
        assert(seq![events[0]] + rest == events);
    }
}

/// What a successful run emits opens no fenced code block.
pub proof fn lemma_highlight_run_emits_no_block_start(
    theme: syntastica::theme::ResolvedTheme,
    templates: Map<Seq<char>, Seq<char>>,
    state: CodeBlockState,
    events: Seq<ParseEventView>,
)
    ensures
        highlight_run(theme, templates, state, events) matches Ok(out) ==> forall|i: int|
            0 <= i < out.len() ==> !(#[trigger] out[i] is CodeBlockStart),
    decreases events.len(),
{
    if events.len() > 0 {
        let (next, output) = highlight_step(theme, templates, state, events[0]);
        lemma_highlight_run_emits_no_block_start(theme, templates, next, events.skip(1));
    }
}

/// Filtering a second time changes nothing: the filter run over what a run
/// from the idle state emitted gives that same sequence again.
pub proof fn lemma_highlight_run_idempotent(
    theme: syntastica::theme::ResolvedTheme,
    templates: Map<Seq<char>, Seq<char>>,
    events: Seq<ParseEventView>,
)
    ensures
        highlight_run(theme, templates, codeblock_idle(), events) matches Ok(out)
            ==> highlight_run(theme, templates, codeblock_idle(), out) == Ok::<_, PipelineError>(
            out,
        ),
{
    lemma_highlight_run_emits_no_block_start(theme, templates, codeblock_idle(), events);
    if let Ok(out) = highlight_run(theme, templates, codeblock_idle(), events) {
        lemma_highlight_run_without_blocks(theme, templates, codeblock_idle(), out);
    }
}

/// Replaces every fenced code block of a document by one HTML event that
/// holds the block highlighted and wrapped in the `codeblock` template.
/// All other events come out unchanged and in order. Stops at the first
/// block that cannot be rendered.
pub fn highlight_codeblocks(events: Vec<ParseEvent>, engine: &Engine, templates: &Templates) -> (r:
    Result<Vec<ParseEvent>, PipelineError>)
    ensures
        run_output_view(r) == highlight_run(
            engine@,
            templates@,
            codeblock_idle(),
            views(events@),
        ),
        r matches Ok(out) ==> out.len() <= events.len(),
{
    let ghost all = views(events@);
    let ghost goal = highlight_run(engine@, templates@, codeblock_idle(), all);
    let mut filter = CodeBlockHighlighter::new();
    let mut out: Vec<ParseEvent> = Vec::new();
    proof {
        lemma_highlight_run_no_longer(engine@, templates@, codeblock_idle(), all);
        lemma_emitted_then_nothing(goal);
        assert(all.skip(0) == all);
        assert(views(out@) == Seq::<ParseEventView>::empty());
    }
    for event in it: events
        invariant
            views(it.seq()) == all,
            all == views(events@),
            goal == highlight_run(engine@, templates@, codeblock_idle(), all),
            goal == emitted_then(
                views(out@),
                highlight_run(engine@, templates@, filter@, all.skip(it.index() as int)),
            ),
    {
        let ghost before = out@;
        let ghost state = filter@;
        let ghost rest = all.skip(it.index() as int);
        proof {
            assert(rest[0] == event@);
            assert(rest.skip(1) == all.skip(it.index() + 1));
        }
        let stepped = filter.step(event, engine, templates);
        proof {
            assert(highlight_step(engine@, templates@, state, rest[0]) == (
                filter@,
                step_output_view(stepped),
            ));
            if let Ok(output) = step_output_view(stepped) {
                lemma_emitted_then_twice(
                    views(before),
                    emitted(output),
                    highlight_run(engine@, templates@, filter@, rest.skip(1)),
                );
            }
        }
        match stepped {
            Err(e) => {
                return Err(e);
            },
            Ok(Some(emit)) => {
                out.push(emit);
                proof {
                    lemma_views_push(before, emit);
                }
            },
            Ok(None) => {
                assert(views(before) + Seq::<ParseEventView>::empty() == views(before));
            },
        }
    }
    proof {
        assert(all.skip(all.len() as int) == Seq::<ParseEventView>::empty());
        assert(views(out@) + Seq::<ParseEventView>::empty() == views(out@));
    }
    Ok(out)
}

} // verus!
