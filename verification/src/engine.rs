//! The syntax-highlighting engine and HTML escaping.

use crate::text::chars_of;
use std::str::FromStr;
use vstd::prelude::*;

verus! {

/// `syntastica_parsers::Lang`, one of the languages that the engine
/// supports.
#[verifier::external_type_specification]
#[verifier::external_body]
pub struct ExLang(syntastica_parsers::Lang);

/// `syntastica_parsers::LanguageSetImpl`, the grammars of the supported
/// languages, each loaded when it is first asked for.
#[verifier::external_type_specification]
#[verifier::external_body]
pub struct ExLanguageSet(syntastica_parsers::LanguageSetImpl);

/// `syntastica::Error`, why the engine failed.
#[verifier::external_type_specification]
#[verifier::external_body]
pub struct ExEngineError(syntastica::Error);

/// `syntastica::theme::ResolvedTheme`, the style for each theme key.
#[verifier::external_type_specification]
#[verifier::external_body]
pub struct ExTheme(syntastica::theme::ResolvedTheme);

/// Highlighted code: its lines, each a sequence of pieces of the code, each
/// piece with the theme key it is to be styled by, if any.
pub type Highlights = Seq<Seq<(Seq<char>, Option<Seq<char>>)>>;

/// The language that a name stands for, if the engine supports one of that
/// name.
pub uninterp spec fn language_named(name: Seq<char>) -> Option<syntastica_parsers::Lang>;

/// The highlights that the engine finds in `code` read as `lang`, or `None`
/// where it fails.
pub uninterp spec fn highlights_of(code: Seq<char>, lang: syntastica_parsers::Lang) -> Option<
    Highlights,
>;

/// The theme of that name, if the theme collection has one. A name is the
/// path of the theme within the collection, such as `one::dark`.
pub uninterp spec fn theme_named(name: Seq<char>) -> Option<syntastica::theme::ResolvedTheme>;

/// The name of the theme that an engine colours by.
pub open spec fn engine_theme_name() -> Seq<char> {
    "one::dark"@
}

/// The HTML that shows the highlights in the colours of `theme`.
pub uninterp spec fn highlights_html(
    highlights: Highlights,
    theme: syntastica::theme::ResolvedTheme,
) -> Seq<char>;

/// `text` with `&`, `<` and `>` replaced by their entities.
pub open spec fn escape_text(text: Seq<char>) -> Seq<char>
    decreases text.len(),
{
    if text.len() == 0 {
        Seq::empty()
    } else {
        escape_char(text[0]) + escape_text(text.skip(1))
    }
}

/// The entity for `&`, `<` or `>`; any other character as it is.
pub open spec fn escape_char(c: char) -> Seq<char> {
    if c == '&' {
        seq!['&', 'a', 'm', 'p', ';']
    } else if c == '<' {
        seq!['&', 'l', 't', ';']
    } else if c == '>' {
        seq!['&', 'g', 't', ';']
    } else {
        seq![c]
    }
}

/// `Lang::from_str`: the language of that name, if the name is one of the
/// supported languages' names.
#[verifier::external_body]
fn language_by_name(name: &str) -> (r: Option<syntastica_parsers::Lang>)
    ensures
        r == language_named(name@),
{
    syntastica_parsers::Lang::from_str(name).ok()
}

/// `LanguageSetImpl::new`: a language set with no language loaded yet.
#[verifier::external_body]
fn new_language_set() -> syntastica_parsers::LanguageSetImpl {
    syntastica_parsers::LanguageSetImpl::new()
}

/// `syntastica_themes::from_str`: the theme of that name, or `None` where
/// the collection has no theme of that name. The collection has the theme
/// `one::dark`.
#[verifier::external_body]
fn theme_by_name(name: &str) -> (r: Option<syntastica::theme::ResolvedTheme>)
    ensures
        r == theme_named(name@),
        name@ == "one::dark"@ ==> r is Some,
{
    syntastica_themes::from_str(name)
}

/// `Processor::process` on a fresh processor over `set`: the highlights of
/// `code`, which depend on the code and the language alone, or the engine's
/// error.
#[verifier::external_body]
fn process<'a>(set: &syntastica_parsers::LanguageSetImpl, code: &'a str, lang: syntastica_parsers::Lang) -> (r:
    Result<Vec<Vec<(&'a str, Option<&'static str>)>>, syntastica::Error>)
    ensures
        match r {
            Ok(h) => highlights_of(code@, lang) == Some(h.deep_view()),
            Err(_) => highlights_of(code@, lang) is None,
        },
{
    syntastica::Processor::new(set).process(code, lang)
}

/// `syntastica::render` with the `HtmlRenderer`: the highlights as HTML,
/// styled by `theme`.
#[verifier::external_body]
fn render_highlights(
    highlights: &Vec<Vec<(&str, Option<&'static str>)>>,
    theme: &syntastica::theme::ResolvedTheme,
) -> (html: String)
    ensures
        html@ == highlights_html(highlights.deep_view(), *theme),
{
    syntastica::render(highlights, &mut syntastica::renderer::HtmlRenderer, theme)
}

/// Escaped text holds neither `<` nor `>`.
pub proof fn lemma_escape_text_has_no_angle_brackets(text: Seq<char>)
    ensures
        forall|i: int|
            0 <= i < escape_text(text).len() ==> escape_text(text)[i] != '<' && escape_text(
                text,
            )[i] != '>',
    decreases text.len(),
{
    if text.len() > 0 {
        let head = escape_char(text[0]);
        let tail = escape_text(text.skip(1));
        lemma_escape_text_has_no_angle_brackets(text.skip(1));
        assert forall|i: int| 0 <= i < escape_text(text).len() implies escape_text(text)[i] != '<'
            && escape_text(text)[i] != '>' by {
            if i < head.len() {
                assert(escape_text(text)[i] == head[i]);
            } else {
                assert(escape_text(text)[i] == tail[i - head.len()]);
            }
        }
    }
}

/// Text without `&`, `<` and `>` is its own escaped form.
pub proof fn lemma_escape_text_plain(text: Seq<char>)
    requires
        forall|i: int| 0 <= i < text.len() ==> text[i] != '&' && text[i] != '<' && text[i] != '>',
    ensures
        escape_text(text) == text,
    decreases text.len(),
{
    if text.len() > 0 {
        let rest = text.skip(1);
        assert forall|i: int| 0 <= i < rest.len() implies rest[i] != '&' && rest[i] != '<'
            && rest[i] != '>' by {
            assert(rest[i] == text[i + 1]);
        }
        lemma_escape_text_plain(rest);
        assert(seq![text[0]] + rest == text);
    }
}

/// Why the engine produced no highlighting.
#[derive(Debug, Clone, Copy, PartialEq, Eq)]
pub enum HighlightError {
    /// No supported language has the given name.
    UnsupportedLanguage,
    /// The engine failed on the code.
    EngineFailure,
}

/// A syntax-highlighting engine with its colour theme. One engine serves
/// any number of documents, one at a time.
pub struct Engine {
    languages: syntastica_parsers::LanguageSetImpl,
    theme: syntastica::theme::ResolvedTheme,
}

impl View for Engine {
    type V = syntastica::theme::ResolvedTheme;

    /// The theme that the engine colours by.
    closed spec fn view(&self) -> syntastica::theme::ResolvedTheme {
        self.theme
    }
}

/// What highlighting `code` as the language called `name` gives, as HTML.
pub open spec fn highlighted_html(
    theme: syntastica::theme::ResolvedTheme,
    name: Seq<char>,
    code: Seq<char>,
) -> Result<Seq<char>, HighlightError> {
    match language_named(name) {
        None => Err(HighlightError::UnsupportedLanguage),
        Some(lang) => match highlights_of(code, lang) {
            None => Err(HighlightError::EngineFailure),
            Some(highlights) => Ok(highlights_html(highlights, theme)),
        },
    }
}

/// The outcome of highlighting with its text as a sequence of characters.
pub open spec fn highlight_result_view(r: Result<String, HighlightError>) -> Result<
    Seq<char>,
    HighlightError,
> {
    match r {
        Ok(html) => Ok(html@),
        Err(e) => Err(e),
    }
}

impl Engine {
    /// An engine that colours by the theme `one::dark`, with no language
    /// loaded yet.
    pub fn new() -> (engine: Engine)
        ensures
            theme_named(engine_theme_name()) == Some(engine@),
    {
        let theme = theme_by_name("one::dark").unwrap();
        Engine { languages: new_language_set(), theme }
    }

    /// Whether the engine supports a language of this name.
    pub fn supports(&self, name: &str) -> (b: bool)
        ensures
            b == language_named(name@).is_some(),
    {
        language_by_name(name).is_some()
    }

    /// Highlights `code` as the language called `name` and renders the
    /// result as HTML.
    pub fn highlight(&self, name: &str, code: &str) -> (r: Result<String, HighlightError>)
        ensures
            highlight_result_view(r) == highlighted_html(self@, name@, code@),
    {
        match language_by_name(name) {
            None => Err(HighlightError::UnsupportedLanguage),
            Some(lang) => self.render_processed(process(&self.languages, code, lang)),
        }
    }

    /// Renders what the engine made of a piece of code: highlights as HTML
    /// in the engine's theme, an error of the engine as a failure.
    pub fn render_processed(
        &self,
        processed: Result<Vec<Vec<(&str, Option<&'static str>)>>, syntastica::Error>,
    ) -> (r: Result<String, HighlightError>)
        ensures
            highlight_result_view(r) == (match processed {
                Ok(highlights) => Ok(highlights_html(highlights.deep_view(), self@)),
                Err(_) => Err(HighlightError::EngineFailure),
            }),
    {
        match processed {
            Ok(highlights) => Ok(render_highlights(&highlights, &self.theme)),
            Err(_) => Err(HighlightError::EngineFailure),
        }
    }
}

/// Escaping a text with one more character at its end adds what that
/// character is escaped to.
pub proof fn lemma_escape_text_push(text: Seq<char>, c: char)
    ensures
        escape_text(text.push(c)) == escape_text(text) + escape_char(c),
    decreases text.len(),
{
    let longer = text.push(c);
    if text.len() == 0 {
        assert(longer.skip(1) == Seq::<char>::empty());
        assert(escape_text(longer.skip(1)) == Seq::<char>::empty());
        assert(escape_char(c) + Seq::<char>::empty() == escape_char(c));
        assert(Seq::<char>::empty() + escape_char(c) == escape_char(c));
    } else {
        assert(longer.skip(1) == text.skip(1).push(c));
        lemma_escape_text_push(text.skip(1), c);
        assert(escape_char(text[0]) + (escape_text(text.skip(1)) + escape_char(c)) == (
            escape_char(text[0]) + escape_text(text.skip(1))
        ) + escape_char(c));
    }
}

/// Escapes `text` for use as HTML text: `&`, `<` and `>` become entities.
pub fn escape_html_text(text: &str) -> (escaped: String)
    ensures
        escaped@ == escape_text(text@),
{
    let chars = chars_of(text);
    let mut escaped = String::new();
    let mut i: usize = 0;
    proof {
        reveal_strlit("&amp;");
        reveal_strlit("&lt;");
        reveal_strlit("&gt;");
        assert(chars@.take(0) == Seq::<char>::empty());
    }
    while i < chars.len()
        invariant
            0 <= i <= chars.len(),
            chars@ == text@,
            escaped@ == escape_text(chars@.take(i as int)),
            "&amp;"@ == seq!['&', 'a', 'm', 'p', ';'],
            "&lt;"@ == seq!['&', 'l', 't', ';'],
            "&gt;"@ == seq!['&', 'g', 't', ';'],
        decreases chars.len() - i,
    {
        let c = chars[i];
        proof {
            assert(chars@.take(i + 1) == chars@.take(i as int).push(c));
            lemma_escape_text_push(chars@.take(i as int), c);
        }
        if c == '&' {
            escaped.push_str("&amp;");
        } else if c == '<' {
            escaped.push_str("&lt;");
        } else if c == '>' {
            escaped.push_str("&gt;");
        } else {
            escaped.push(c);
            assert(escaped@ == escape_text(chars@.take(i as int)) + seq![c]);
        }
        i += 1;
    }
    assert(chars@.take(chars.len() as int) == chars@);
    escaped
}

} // verus!
