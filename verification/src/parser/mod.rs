//! Reading a document: the backend interface, the content stream
//! interpreter, the layout analysis and the table detector.

pub mod analyzer;
pub mod backend;
pub mod container;
pub mod interpreter;
pub mod layout;
pub mod options;
pub mod pdf_parser;
pub mod table_detector;

pub use analyzer::LayoutAnalyzer;
pub use backend::{
    decode_text_simple, get_number_from_value, BackendFontInfo, ContentOp, PageId, PdfBackend,
    PdfValue,
};
pub use layout::{BlockType, Column, FontStatistics, TextBlock, TextLine, TextSpan};
pub use options::{ErrorMode, ExtractMode, ParseOptions};
pub use pdf_parser::PdfParser;
pub use table_detector::{DetectedTable, TableDetector, TableDetectorConfig, TableRowData};
