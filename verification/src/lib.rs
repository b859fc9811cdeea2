//! Structured content extraction from PDF documents.
//!
//! The crate reconstructs the logical structure of a page (lines, headings,
//! paragraphs, tables) from positioned text emissions and renders the result
//! as Markdown or plain text. All lengths and coordinates are integers in
//! thousandths of a point.

pub mod builder;
pub mod convert;
pub mod detect;
pub mod error;
pub mod model;
pub mod parser;
pub mod render;
pub mod sorting;
pub mod text;
pub mod units;

pub use builder::{Unpdf, UnpdfResult};
pub use convert::{ConvertOptions, ConvertResult, OutputFormat, PdfConverter};
pub use detect::{detect_format_from_bytes, is_pdf_bytes, PdfFormat};
pub use error::Error;
pub use model::{
    Alignment, Block, Document, InlineContent, ListInfo, Metadata, Outline, Page, Paragraph,
    ParagraphStyle, Resource, ResourceType, Table, TableCell, TableRow, TextRun, TextStyle,
};
pub use parser::{ParseOptions, PdfParser};
pub use render::{
    CleanupOptions, CleanupPreset, HeadingConfig, JsonFormat, PageSelection, RenderOptions,
    TableFallback,
};
