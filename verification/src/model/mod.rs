//! The document model: the typed tree that the parser builds and the
//! renderers walk.

pub mod document;
pub mod page;
pub mod paragraph;
pub mod resource;
pub mod table;

pub use paragraph::{
    Alignment, InlineContent, ListInfo, ListStyle, NumberStyle, Paragraph, ParagraphStyle, TextRun,
    TextStyle,
};
pub use table::{Table, TableCell, TableRow, VerticalAlignment};
pub use page::{Block, Page};
pub use resource::{Resource, ResourceType};
pub use document::{Document, Metadata, Outline, OutlineItem, ResourceEntry, Timestamp};
