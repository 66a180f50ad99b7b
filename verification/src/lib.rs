//! Markdown event-stream filters for a static site builder: syntax
//! highlighting of fenced code blocks and rendering of callout blockquotes.

pub mod blockquote;
pub mod codeblock;
pub mod engine;
pub mod error;
pub mod event;
pub mod markdown;
pub mod front_matter;
pub mod links;
pub mod marker;
pub mod pipeline;
pub mod post;
pub mod stream;
pub mod templates;
pub mod text;
