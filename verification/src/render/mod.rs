//! Rendering a document as Markdown or plain text, and cleaning the output
//! up.

pub mod cleanup;
pub mod json;
pub mod markdown;
pub mod options;
pub mod result;
pub mod streaming;
pub mod text;
pub mod visitor;

pub use cleanup::{CleanupOptions, CleanupPipeline, CleanupPreset};
pub use options::{HeadingConfig, PageSelection, RenderOptions, TableFallback};
pub use result::{ExtractionStats, RenderResult};
pub use markdown::{to_markdown, to_markdown_with_stats, MarkdownRenderer};
pub use json::JsonFormat;
pub use streaming::{collect_content, RenderEvent, StreamingRenderer};
pub use text::to_text;
pub use visitor::{CompositeVisitor, DefaultVisitor, DocumentVisitor, VisitorAction};
