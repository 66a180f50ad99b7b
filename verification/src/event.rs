//! The events of a parsed markdown document.

use vstd::prelude::*;

verus! {

/// `pulldown_cmark::Event`, an event as the tokenizer hands it out.
#[verifier::external_type_specification]
#[verifier::external_body]
pub struct ExRawEvent<'a>(pulldown_cmark::Event<'a>);

/// `pulldown_cmark::BlockQuoteKind`, the kind of alert that a blockquote
/// may be marked as.
#[verifier::external_type_specification]
#[verifier::external_body]
pub struct ExBlockQuoteKind(pulldown_cmark::BlockQuoteKind);

/// One event of a parsed document: the start or end of a block, a run of
/// text, or a piece of raw HTML.
///
/// The events that the filters of this crate read or produce have variants
/// of their own. Every other event of the tokenizer travels in `Other` and
/// is handed on as it is; `Other` is not meant to hold an event that has a
/// variant here.
#[derive(Debug, PartialEq)]
pub enum ParseEvent {
    /// A fenced code block opens; the text is its language tag, which may
    /// be empty.
    CodeBlockStart(String),
    /// A code block closes.
    CodeBlockEnd,
    /// A blockquote opens.
    BlockQuoteStart(Option<pulldown_cmark::BlockQuoteKind>),
    /// A blockquote closes.
    BlockQuoteEnd(Option<pulldown_cmark::BlockQuoteKind>),
    /// A run of text.
    Text(String),
    /// A block of raw HTML.
    Html(String),
    /// Any other event.
    Other(pulldown_cmark::Event<'static>),
}

/// A [`ParseEvent`] with its texts as sequences of characters.
pub enum ParseEventView {
    CodeBlockStart(Seq<char>),
    CodeBlockEnd,
    BlockQuoteStart(Option<pulldown_cmark::BlockQuoteKind>),
    BlockQuoteEnd(Option<pulldown_cmark::BlockQuoteKind>),
    Text(Seq<char>),
    Html(Seq<char>),
    Other(pulldown_cmark::Event<'static>),
}

impl View for ParseEvent {
    type V = ParseEventView;

    open spec fn view(&self) -> ParseEventView {
        match *self {
            ParseEvent::CodeBlockStart(lang) => ParseEventView::CodeBlockStart(lang@),
            ParseEvent::CodeBlockEnd => ParseEventView::CodeBlockEnd,
            ParseEvent::BlockQuoteStart(kind) => ParseEventView::BlockQuoteStart(kind),
            ParseEvent::BlockQuoteEnd(kind) => ParseEventView::BlockQuoteEnd(kind),
            ParseEvent::Text(text) => ParseEventView::Text(text@),
            ParseEvent::Html(html) => ParseEventView::Html(html@),
            ParseEvent::Other(raw) => ParseEventView::Other(raw),
        }
    }
}

/// The views of a sequence of events.
pub open spec fn views(events: Seq<ParseEvent>) -> Seq<ParseEventView> {
    events.map_values(|e: ParseEvent| e@)
}

} // verus!
