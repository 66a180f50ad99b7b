//! From markdown text to an HTML fragment.

use crate::engine::Engine;
use crate::error::{html_result_view, PipelineError};
use crate::event::{views, ParseEvent, ParseEventView};
use crate::pipeline::{pipeline_idle, pipeline_run, run_pipeline};
use crate::templates::Templates;
use pulldown_cmark::{CodeBlockKind, Event, Options, Parser, Tag, TagEnd};
use vstd::prelude::*;

verus! {

/// The markdown extensions that the tokenizer is to recognise.
#[derive(Debug, Clone, Copy, PartialEq, Eq)]
pub struct Extensions {
    pub wikilinks: bool,
    pub strikethrough: bool,
    pub tables: bool,
    pub tasklists: bool,
    pub yaml_metadata: bool,
}

/// `pulldown_cmark::Options`, the set of extensions that a parser is made
/// with.
#[verifier::external_type_specification]
#[verifier::external_body]
pub struct ExOptions(Options);

/// The tokenizer options that switch on the chosen extensions and no others.
pub uninterp spec fn options_of(extensions: Extensions) -> Options;

/// The events that the tokenizer produces for a markdown text.
pub uninterp spec fn tokens_of(input: Seq<char>, options: Options) -> Seq<ParseEventView>;

/// The HTML that the serializer writes for a sequence of events.
pub uninterp spec fn html_of(events: Seq<ParseEventView>) -> Seq<char>;

/// `Options::empty` and `Options::set`: the option set in which each of the
/// five extensions is on exactly when its field is `true`.
#[verifier::external_body]
fn parser_options(ext: &Extensions) -> (o: Options)
    ensures
        o == options_of(*ext),
{
    let mut o = Options::empty();
    o.set(Options::ENABLE_WIKILINKS, ext.wikilinks);
    o.set(Options::ENABLE_STRIKETHROUGH, ext.strikethrough);
    o.set(Options::ENABLE_TABLES, ext.tables);
    o.set(Options::ENABLE_TASKLISTS, ext.tasklists);
    o.set(Options::ENABLE_YAML_STYLE_METADATA_BLOCKS, ext.yaml_metadata);
    o
}

/// `Parser::new_ext` and the parser's iteration: all events of `input`, in
/// order. The events that [`ParseEvent`] has variants for are stored in
/// them, every other one in `Other`.
#[verifier::external_body]
fn tokenize(input: &str, options: Options) -> (events: Vec<ParseEvent>)
    ensures
        views(events@) == tokens_of(input@, options),
{
    Parser::new_ext(input, options).map(|raw| match raw {
        Event::Start(Tag::CodeBlock(CodeBlockKind::Fenced(l))) => ParseEvent::CodeBlockStart(l.to_string()),
        Event::End(TagEnd::CodeBlock) => ParseEvent::CodeBlockEnd,
        Event::Start(Tag::BlockQuote(k)) => ParseEvent::BlockQuoteStart(k),
        Event::End(TagEnd::BlockQuote(k)) => ParseEvent::BlockQuoteEnd(k),
        Event::Text(t) => ParseEvent::Text(t.to_string()),
        Event::Html(h) => ParseEvent::Html(h.to_string()),
        other => ParseEvent::Other(other.into_static()),
    }).collect()
}

/// `pulldown_cmark::html::push_html`: the HTML for the events, in order,
/// each handed over as the tokenizer's event that it stands for.
#[verifier::external_body]
fn serialize(events: Vec<ParseEvent>) -> (html: String)
    ensures
        html@ == html_of(views(events@)),
{
    let raw = events.into_iter().map(|e| match e {
        ParseEvent::CodeBlockStart(l) => Event::Start(Tag::CodeBlock(CodeBlockKind::Fenced(l.into()))),
        ParseEvent::CodeBlockEnd => Event::End(TagEnd::CodeBlock),
        ParseEvent::BlockQuoteStart(k) => Event::Start(Tag::BlockQuote(k)),
        ParseEvent::BlockQuoteEnd(k) => Event::End(TagEnd::BlockQuote(k)),
        ParseEvent::Text(t) => Event::Text(t.into()),
        ParseEvent::Html(h) => Event::Html(h.into()),
        ParseEvent::Other(raw) => raw,
    });
    let mut html = String::new();
    pulldown_cmark::html::push_html(&mut html, raw);
    html
}

/// The extensions of a site's documents: wikilinks, strikethrough, tables,
/// task lists and YAML-style metadata blocks.
pub open spec fn standard_extensions() -> Extensions {
    Extensions {
        wikilinks: true,
        strikethrough: true,
        tables: true,
        tasklists: true,
        yaml_metadata: true,
    }
}

impl Extensions {
    /// The extensions of a site's documents: all five.
    pub fn standard() -> (ext: Extensions)
        ensures
            ext == standard_extensions(),
    {
        Extensions {
            wikilinks: true,
            strikethrough: true,
            tables: true,
            tasklists: true,
            yaml_metadata: true,
        }
    }
}

/// The events of a markdown text, in order.
pub fn parse_events(input: &str, ext: &Extensions) -> (events: Vec<ParseEvent>)
    ensures
        views(events@) == tokens_of(input@, options_of(*ext)),
{
    tokenize(input, parser_options(ext))
}

/// Writes the events out as one HTML fragment.
pub fn events_to_html(events: Vec<ParseEvent>) -> (html: String)
    ensures
        html@ == html_of(views(events@)),
{
    serialize(events)
}

/// The HTML fragment for a markdown text: its events run through the
/// pipeline, which highlights the fenced code blocks and turns the marked
/// blockquotes into callouts, and written out as HTML; or the first
/// failure on the way.
pub open spec fn rendered_fragment(
    theme: syntastica::theme::ResolvedTheme,
    templates: Map<Seq<char>, Seq<char>>,
    input: Seq<char>,
    ext: Extensions,
) -> Result<Seq<char>, PipelineError> {
    match pipeline_run(theme, templates, pipeline_idle(), tokens_of(input, options_of(ext))) {
        Ok(events) => Ok(html_of(events)),
        Err(e) => Err(e),
    }
}

/// Renders a markdown text to an HTML fragment with the given extensions.
pub fn render_markdown_with(
    content: &str,
    ext: &Extensions,
    engine: &Engine,
    templates: &Templates,
) -> (r: Result<String, PipelineError>)
    ensures
        html_result_view(r) == rendered_fragment(engine@, templates@, content@, *ext),
{
    match run_pipeline(parse_events(content, ext), engine, templates) {
        Ok(events) => Ok(events_to_html(events)),
        Err(e) => Err(e),
    }
}

/// Renders a markdown text to an HTML fragment, with the standard
/// extensions: code blocks highlighted, callouts rendered.
pub fn render_markdown_to_html(content: &str, engine: &Engine, templates: &Templates) -> (r: Result<
    String,
    PipelineError,
>)
    ensures
        html_result_view(r) == rendered_fragment(
            engine@,
            templates@,
            content@,
            standard_extensions(),
        ),
{
    let ext = Extensions::standard();
    render_markdown_with(content, &ext, engine, templates)
}

/// Rendering is repeatable: two renderings of the same text, with the same
/// extensions, theme and templates, end the same way, and where they
/// succeed they give the same fragment.
pub proof fn lemma_rendering_is_repeatable(
    first: Result<String, PipelineError>,
    second: Result<String, PipelineError>,
    theme: syntastica::theme::ResolvedTheme,
    templates: Map<Seq<char>, Seq<char>>,
    input: Seq<char>,
    ext: Extensions,
)
    requires
        html_result_view(first) == rendered_fragment(theme, templates, input, ext),
        html_result_view(second) == rendered_fragment(theme, templates, input, ext),
    ensures
        first is Ok <==> second is Ok,
        first is Ok ==> first->Ok_0@ == second->Ok_0@,
        first is Err ==> first->Err_0 == second->Err_0,
{
}

} // verus!
