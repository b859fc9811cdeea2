//! Converting a parsed document into one of the output formats.

use crate::error::Error;
use crate::model::document::{Document, Metadata};
use crate::parser::layout::{lowercase, to_lowercase};
use crate::parser::options::{is_default_parse_options, ParseOptions};
use crate::render::markdown::{
    document_markdown, document_stats, to_markdown, to_markdown_with_stats,
};
use crate::render::options::{is_default_options, PageSelection, RenderOptions};
use crate::render::result::ExtractionStats;
use crate::render::text::{document_plain, to_text};
use crate::text::same_str;
use vstd::prelude::*;

verus! {

/// The format of the output.
#[derive(Debug, Clone, Copy, PartialEq, Eq, Structural)]
pub enum OutputFormat {
    /// Markdown; the default.
    Markdown,
    /// Plain text.
    Text,
    /// JSON.
    Json,
}

impl Default for OutputFormat {
    fn default() -> (r: OutputFormat)
        ensures
            r == OutputFormat::Markdown,
    {
        OutputFormat::Markdown
    }
}

/// What a conversion is asked to do.
#[derive(Debug, Clone)]
pub struct ConvertOptions {
    /// How the document is rendered.
    pub render: RenderOptions,
    /// The password of an encrypted document.
    pub password: Option<String>,
    /// Whether statistics are collected.
    pub collect_stats: bool,
    /// The format of the output.
    pub output_format: OutputFormat,
}

impl Default for ConvertOptions {
    fn default() -> (r: ConvertOptions)
        ensures
            is_default_options(r.render),
            r.password is None,
            !r.collect_stats,
            r.output_format == OutputFormat::Markdown,
    {
        ConvertOptions {
            render: RenderOptions::default(),
            password: None,
            collect_stats: false,
            output_format: OutputFormat::Markdown,
        }
    }
}

impl ConvertOptions {
    /// The default options.
    pub fn new() -> (r: ConvertOptions)
        ensures
            is_default_options(r.render),
            r.password is None,
            !r.collect_stats,
            r.output_format == OutputFormat::Markdown,
    {
        ConvertOptions::default()
    }

    /// The options with the render options set.
    pub fn with_render_options(self, options: RenderOptions) -> (r: ConvertOptions)
        ensures
            r == (ConvertOptions { render: options, ..self }),
    {
        let mut o = self;
        o.render = options;
        o
    }

    /// The options with the password set.
    pub fn with_password(self, password: &str) -> (r: ConvertOptions)
        ensures
            r.password is Some,
            r.password->0@ == password@,
            (ConvertOptions { password: self.password, ..r }) == self,
    {
        let mut o = self;
        o.password = Some(password.to_owned());
        o
    }

    /// The options with the collecting of statistics switched on or off.
    pub fn with_stats(self, collect: bool) -> (r: ConvertOptions)
        ensures
            r == (ConvertOptions { collect_stats: collect, ..self }),
    {
        let mut o = self;
        o.collect_stats = collect;
        o
    }

    /// The options with the output format set.
    pub fn with_format(self, format: OutputFormat) -> (r: ConvertOptions)
        ensures
            r == (ConvertOptions { output_format: format, ..self }),
    {
        let mut o = self;
        o.output_format = format;
        o
    }
}

/// What a conversion gives back.
#[derive(Debug, Clone)]
pub struct ConvertResult {
    /// The converted content.
    pub content: String,
    /// The metadata of the document.
    pub metadata: Metadata,
    /// The statistics, where they were collected.
    pub stats: Option<ExtractionStats>,
    /// The MIME type of the content.
    pub mime_type: &'static str,
}

impl ConvertResult {
    /// A Markdown result without statistics.
    pub fn new(content: String, metadata: Metadata) -> (r: ConvertResult)
        ensures
            r.content == content,
            r.metadata == metadata,
            r.stats is None,
            r.mime_type@ == "text/markdown"@,
    {
        ConvertResult { content, metadata, stats: None, mime_type: "text/markdown" }
    }

    /// The result with statistics.
    pub fn with_stats(self, stats: ExtractionStats) -> (r: ConvertResult)
        ensures
            r == (ConvertResult { stats: Some(stats), ..self }),
    {
        let mut c = self;
        c.stats = Some(stats);
        c
    }

    /// The result with another MIME type.
    pub fn with_mime_type(self, mime_type: &'static str) -> (r: ConvertResult)
        ensures
            r == (ConvertResult { mime_type, ..self }),
    {
        let mut c = self;
        c.mime_type = mime_type;
        c
    }

    /// The length of the content in bytes of UTF-8.
    pub fn content_len(&self) -> (r: usize)
        ensures
            r == vstd::utf8::encode_utf8(self.content@).len(),
    {
        self.content.as_str().as_bytes().len()
    }
}

/// Converts PDF documents.
#[derive(Debug, Clone, Copy)]
pub struct PdfConverter {
    _private: (),
}

impl Default for PdfConverter {
    fn default() -> (r: PdfConverter) {
        PdfConverter { _private: () }
    }
}

/// The converted document is the document in the format asked for, with
/// statistics where they are asked for.
pub open spec fn is_converted(r: ConvertResult, doc: Document, o: ConvertOptions) -> bool {
    &&& r.metadata == doc.metadata
    &&& match o.output_format {
        OutputFormat::Markdown => r.content@ == document_markdown(o.render, doc) && r.mime_type@
            == "text/markdown"@ && if o.collect_stats {
            r.stats == Some(document_stats(o.render, doc))
        } else {
            r.stats is None
        },
        OutputFormat::Text => r.content@ == document_plain(o.render, doc) && r.mime_type@
            == "text/plain"@ && r.stats is None,
        OutputFormat::Json => false,
    }
}

impl PdfConverter {
    /// The converter.
    pub fn new() -> (r: PdfConverter) {
        PdfConverter { _private: () }
    }

    /// The name of the converter: `pdf`.
    pub fn name(&self) -> (r: &'static str)
        ensures
            r@ == "pdf"@,
    {
        "pdf"
    }

    /// The file extensions that the converter takes: `pdf`.
    pub fn supported_extensions(&self) -> (r: Vec<&'static str>)
        ensures
            r@.len() == 1,
            r@[0]@ == "pdf"@,
    {
        let mut v: Vec<&'static str> = Vec::new();
        v.push("pdf");
        v
    }

    /// Tests whether the converter takes files of the extension, whatever
    /// its case.
    pub fn supports_extension(&self, ext: &str) -> (r: bool)
        ensures
            r == (lowercase(ext@) == "pdf"@),
    {
        let lower = to_lowercase(ext);
        same_str(lower.as_str(), "pdf")
    }

    /// The parse options for a conversion: the defaults, with the page
    /// selection of the render options and the password.
    pub fn build_parse_options(&self, options: &ConvertOptions, pages: PageSelection) -> (r:
        ParseOptions)
        ensures
            r.pages == pages,
            match options.password {
                Some(p) => r.password matches Some(q) && q@ == p@,
                None => r.password is None,
            },
            is_default_parse_options(
                ParseOptions { pages: PageSelection::All, password: None, ..r },
            ),
    {
        let o = ParseOptions::new().with_pages(pages);
        match &options.password {
            Some(p) => o.with_password(p.as_str()),
            None => o,
        }
    }

    /// The result of a conversion to JSON, of the document and its JSON
    /// text: the text as content, the metadata of the document, no
    /// statistics.
    pub fn json_result(&self, doc: &Document, json: String) -> (r: ConvertResult)
        ensures
            r.content == json,
            r.metadata == doc.metadata,
            r.stats is None,
            r.mime_type@ == "application/json"@,
    {
        ConvertResult::new(json, doc.metadata.duplicate()).with_mime_type("application/json")
    }

    /// Converts a parsed document to Markdown or plain text; see
    /// [`is_converted`]. JSON is written by a serialiser outside the library,
    /// so that format is not asked of this function: see
    /// [`PdfConverter::json_result`].
    pub fn convert_document(&self, doc: &Document, options: &ConvertOptions) -> (r: Result<
        ConvertResult,
        Error,
    >)
        requires
            options.output_format != OutputFormat::Json,
        ensures
            r matches Ok(c) && is_converted(c, *doc, *options),
    {
        match options.output_format {
            OutputFormat::Markdown => {
                if options.collect_stats {
                    match to_markdown_with_stats(doc, &options.render) {
                        Ok(res) => Ok(
                            ConvertResult::new(res.content, doc.metadata.duplicate()).with_stats(
                                res.stats,
                            ).with_mime_type("text/markdown"),
                        ),
                        Err(e) => Err(e),
                    }
                } else {
                    match to_markdown(doc, &options.render) {
                        Ok(content) => Ok(
                            ConvertResult::new(content, doc.metadata.duplicate()).with_mime_type(
                                "text/markdown",
                            ),
                        ),
                        Err(e) => Err(e),
                    }
                }
            },
            _ => {
                match to_text(doc, &options.render) {
                    Ok(content) => Ok(
                        ConvertResult::new(content, doc.metadata.duplicate()).with_mime_type(
                            "text/plain",
                        ),
                    ),
                    Err(e) => Err(e),
                }
            },
        }
    }
}

} // verus!
