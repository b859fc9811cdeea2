//! A builder for parsing and rendering in one go.

use crate::error::Error;
use crate::model::document::{document_text, Document};
use crate::parser::backend::{PageId, PdfBackend};
use crate::parser::container::ContainerInfo;
use crate::parser::options::{is_default_parse_options, ErrorMode, ExtractMode, ParseOptions};
use crate::parser::pdf_parser::{is_parsed_document, resources_fail, PdfParser};
use crate::render::cleanup::{preset_options, CleanupPreset};
use crate::render::markdown::{document_markdown, to_markdown};
use crate::render::options::{is_default_options, PageSelection, RenderOptions, TableFallback};
use crate::render::text::{document_plain, to_text};
use vstd::prelude::*;

verus! {

/// Options for parsing and rendering, built step by step.
#[derive(Debug, Clone)]
pub struct Unpdf {
    /// The parse options.
    pub parse_options: ParseOptions,
    /// The render options.
    pub render_options: RenderOptions,
}

impl Default for Unpdf {
    fn default() -> (r: Unpdf)
        ensures
            is_default_parse_options(r.parse_options),
            is_default_options(r.render_options),
    {
        Unpdf::new()
    }
}

impl Unpdf {
    /// A builder with the default options.
    pub fn new() -> (r: Unpdf)
        ensures
            is_default_parse_options(r.parse_options),
            is_default_options(r.render_options),
    {
        Unpdf { parse_options: ParseOptions::default(), render_options: RenderOptions::default() }
    }

    /// The builder in lenient mode.
    pub fn lenient(self) -> (r: Unpdf)
        ensures
            r.parse_options == (ParseOptions { error_mode: ErrorMode::Lenient, ..self.parse_options }),
            r.render_options == self.render_options,
    {
        Unpdf { parse_options: self.parse_options.lenient(), render_options: self.render_options }
    }

    /// The builder for text only.
    pub fn text_only(self) -> (r: Unpdf)
        ensures
            r.parse_options == (ParseOptions {
                extract_mode: ExtractMode::TextOnly,
                ..self.parse_options
            }),
            r.render_options == self.render_options,
    {
        Unpdf { parse_options: self.parse_options.text_only(), render_options: self.render_options }
    }

    /// The builder without parallel parsing.
    pub fn sequential(self) -> (r: Unpdf)
        ensures
            r.parse_options == (ParseOptions { parallel: false, ..self.parse_options }),
            r.render_options == self.render_options,
    {
        Unpdf { parse_options: self.parse_options.sequential(), render_options: self.render_options }
    }

    /// The builder with a memory limit in megabytes. The limit is recorded
    /// and has no effect on parsing.
    pub fn with_memory_limit_mb(self, mb: u32) -> (r: Unpdf)
        ensures
            r.parse_options == (ParseOptions { memory_limit_mb: mb, ..self.parse_options }),
            r.render_options == self.render_options,
    {
        Unpdf {
            parse_options: self.parse_options.with_memory_limit(mb),
            render_options: self.render_options,
        }
    }

    /// The builder with the extraction of images switched on or off.
    pub fn with_images(self, extract: bool) -> (r: Unpdf)
        ensures
            r.parse_options == (ParseOptions { extract_resources: extract, ..self.parse_options }),
            r.render_options == self.render_options,
    {
        Unpdf {
            parse_options: self.parse_options.with_resources(extract),
            render_options: self.render_options,
        }
    }

    /// The builder with the image directory set.
    pub fn with_image_dir(self, dir: &str) -> (r: Unpdf)
        ensures
            r.parse_options == self.parse_options,
            r.render_options.image_dir is Some,
            r.render_options.image_dir->0@ == dir@,
            (RenderOptions { image_dir: self.render_options.image_dir, ..r.render_options })
                == self.render_options,
    {
        Unpdf {
            parse_options: self.parse_options,
            render_options: self.render_options.with_image_dir(dir),
        }
    }

    /// The builder with frontmatter switched on.
    pub fn with_frontmatter(self) -> (r: Unpdf)
        ensures
            r.parse_options == self.parse_options,
            r.render_options == (RenderOptions { include_frontmatter: true, ..self.render_options }),
    {
        Unpdf {
            parse_options: self.parse_options,
            render_options: self.render_options.with_frontmatter(true),
        }
    }

    /// The builder with the table fallback set.
    pub fn with_table_fallback(self, fallback: TableFallback) -> (r: Unpdf)
        ensures
            r.parse_options == self.parse_options,
            r.render_options == (RenderOptions { table_fallback: fallback, ..self.render_options }),
    {
        Unpdf {
            parse_options: self.parse_options,
            render_options: self.render_options.with_table_fallback(fallback),
        }
    }

    /// The builder with the cleanup of a preset.
    pub fn with_cleanup(self, preset: CleanupPreset) -> (r: Unpdf)
        ensures
            r.parse_options == self.parse_options,
            r.render_options == (RenderOptions {
                cleanup: Some(preset_options(preset)),
                ..self.render_options
            }),
    {
        Unpdf {
            parse_options: self.parse_options,
            render_options: self.render_options.with_cleanup_preset(preset),
        }
    }

    /// The builder with the password set.
    pub fn with_password(self, password: &str) -> (r: Unpdf)
        ensures
            r.render_options == self.render_options,
            r.parse_options.password is Some,
            r.parse_options.password->0@ == password@,
            (ParseOptions { password: self.parse_options.password, ..r.parse_options })
                == self.parse_options,
    {
        Unpdf {
            parse_options: self.parse_options.with_password(password),
            render_options: self.render_options,
        }
    }

    /// The builder with the pages selected, for parsing and for rendering.
    pub fn with_pages(self, pages: PageSelection) -> (r: Unpdf)
        ensures
            crate::render::options::same_selection(r.parse_options.pages, pages),
            r.render_options.page_selection == pages,
            (ParseOptions { pages: self.parse_options.pages, ..r.parse_options })
                == self.parse_options,
            (RenderOptions {
                page_selection: self.render_options.page_selection,
                ..r.render_options
            }) == self.render_options,
    {
        let copy = crate::render::options::duplicate_selection(&pages);
        Unpdf {
            parse_options: self.parse_options.with_pages(copy),
            render_options: self.render_options.with_pages(pages),
        }
    }

    /// Parses the document that a backend gives access to.
    pub fn parse_with<B: PdfBackend>(self, backend: B, info: ContainerInfo) -> (r: Result<
        UnpdfResult,
        Error,
    >)
        ensures
            r matches Ok(res) ==> res.render_options == self.render_options && exists|
                listed: Seq<(u32, PageId)>,
            | #[trigger]
                is_parsed_document(res.document, listed, info, self.parse_options),
            resources_fail(info, self.parse_options) ==> r is Err,
            self.parse_options.extract_mode == ExtractMode::StructureOnly
                || self.parse_options.error_mode == ErrorMode::Lenient ==> r is Ok,
    {
        let parser = PdfParser::with_backend(backend, info, self.parse_options);
        match parser.parse() {
            Ok(document) => Ok(UnpdfResult { document, render_options: self.render_options }),
            Err(e) => Err(e),
        }
    }
}

/// A parsed document with the options to render it.
#[derive(Debug)]
pub struct UnpdfResult {
    /// The document.
    pub document: Document,
    /// The options that the document is rendered with.
    pub render_options: RenderOptions,
}

impl UnpdfResult {
    /// The document as Markdown.
    pub fn to_markdown(&self) -> (r: Result<String, Error>)
        ensures
            r matches Ok(s) && s@ == document_markdown(self.render_options, self.document),
    {
        to_markdown(&self.document, &self.render_options)
    }

    /// The document as plain text, cleaned up as the options say.
    pub fn to_text(&self) -> (r: Result<String, Error>)
        ensures
            r matches Ok(s) && s@ == document_plain(self.render_options, self.document),
    {
        to_text(&self.document, &self.render_options)
    }

    /// The plain text of the document as it is.
    pub fn plain_text(&self) -> (r: String)
        ensures
            r@ == document_text(self.document.pages@),
    {
        self.document.plain_text()
    }

    /// The document.
    pub fn document(&self) -> (r: &Document)
        ensures
            *r == self.document,
    {
        &self.document
    }
}

} // verus!
