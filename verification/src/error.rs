//! Failures of the event pipeline.

use vstd::prelude::*;

verus! {

/// Why rendering a document stopped. Either failure ends the rendering of
/// the current document and leaves other documents untouched.
#[derive(Debug, Clone, Copy, PartialEq, Eq)]
pub enum PipelineError {
    /// The highlighting engine failed on a code block in a language it
    /// supports.
    HighlightEngineFailure,
    /// A template could not be rendered.
    TemplateRenderFailure,
}

/// The outcome of rendering a fragment, with its text as a sequence of
/// characters.
pub open spec fn html_result_view(r: Result<String, PipelineError>) -> Result<
    Seq<char>,
    PipelineError,
> {
    match r {
        Ok(html) => Ok(html@),
        Err(e) => Err(e),
    }
}

} // verus!
