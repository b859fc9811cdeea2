//! What the parser is asked to do.

use crate::render::options::PageSelection;
use vstd::prelude::*;

verus! {

/// What happens when a page cannot be read.
#[derive(Debug, Clone, Copy, PartialEq, Eq, Structural)]
pub enum ErrorMode {
    /// The first failure ends the parse; the default.
    Strict,
    /// A page that fails is left without content, and the parse goes on.
    Lenient,
}

impl Default for ErrorMode {
    fn default() -> (r: ErrorMode)
        ensures
            r == ErrorMode::Strict,
    {
        ErrorMode::Strict
    }
}

/// What is taken from the document.
#[derive(Debug, Clone, Copy, PartialEq, Eq, Structural)]
pub enum ExtractMode {
    /// Text, structure and resources; the default.
    Full,
    /// Text only.
    TextOnly,
    /// Structure only: pages without their text.
    StructureOnly,
}

impl Default for ExtractMode {
    fn default() -> (r: ExtractMode)
        ensures
            r == ExtractMode::Full,
    {
        ExtractMode::Full
    }
}

/// What the parser is asked to do.
#[derive(Debug, Clone)]
pub struct ParseOptions {
    /// What happens when a page cannot be read.
    pub error_mode: ErrorMode,
    /// What is taken from the document.
    pub extract_mode: ExtractMode,
    /// A memory limit in megabytes; 0 for none.
    pub memory_limit_mb: u32,
    /// Whether embedded resources are extracted.
    pub extract_resources: bool,
    /// Whether pages may be parsed in parallel.
    pub parallel: bool,
    /// The pages to parse.
    pub pages: PageSelection,
    /// The password of an encrypted document.
    pub password: Option<String>,
}

/// The options that the parser starts from.
pub open spec fn is_default_parse_options(o: ParseOptions) -> bool {
    &&& o.error_mode == ErrorMode::Strict
    &&& o.extract_mode == ExtractMode::Full
    &&& o.memory_limit_mb == 0
    &&& o.extract_resources
    &&& o.parallel
    &&& o.pages is All
    &&& o.password is None
}

impl Default for ParseOptions {
    fn default() -> (r: ParseOptions)
        ensures
            is_default_parse_options(r),
    {
        ParseOptions {
            error_mode: ErrorMode::Strict,
            extract_mode: ExtractMode::Full,
            memory_limit_mb: 0,
            extract_resources: true,
            parallel: true,
            pages: PageSelection::All,
            password: None,
        }
    }
}

impl ParseOptions {
    /// The default options.
    pub fn new() -> (r: ParseOptions)
        ensures
            is_default_parse_options(r),
    {
        ParseOptions::default()
    }

    /// The options with the error mode set.
    pub fn with_error_mode(self, mode: ErrorMode) -> (r: ParseOptions)
        ensures
            r == (ParseOptions { error_mode: mode, ..self }),
    {
        let mut o = self;
        o.error_mode = mode;
        o
    }

    /// The options in lenient mode.
    pub fn lenient(self) -> (r: ParseOptions)
        ensures
            r == (ParseOptions { error_mode: ErrorMode::Lenient, ..self }),
    {
        let mut o = self;
        o.error_mode = ErrorMode::Lenient;
        o
    }

    /// The options with the extract mode set.
    pub fn with_extract_mode(self, mode: ExtractMode) -> (r: ParseOptions)
        ensures
            r == (ParseOptions { extract_mode: mode, ..self }),
    {
        let mut o = self;
        o.extract_mode = mode;
        o
    }

    /// The options for text only.
    pub fn text_only(self) -> (r: ParseOptions)
        ensures
            r == (ParseOptions { extract_mode: ExtractMode::TextOnly, ..self }),
    {
        let mut o = self;
        o.extract_mode = ExtractMode::TextOnly;
        o
    }

    /// The options with the memory limit set.
    pub fn with_memory_limit(self, mb: u32) -> (r: ParseOptions)
        ensures
            r == (ParseOptions { memory_limit_mb: mb, ..self }),
    {
        let mut o = self;
        o.memory_limit_mb = mb;
        o
    }

    /// The options with the extraction of resources switched on or off.
    pub fn with_resources(self, extract: bool) -> (r: ParseOptions)
        ensures
            r == (ParseOptions { extract_resources: extract, ..self }),
    {
        let mut o = self;
        o.extract_resources = extract;
        o
    }

    /// The options with parallel parsing switched on or off.
    pub fn with_parallel(self, parallel: bool) -> (r: ParseOptions)
        ensures
            r == (ParseOptions { parallel, ..self }),
    {
        let mut o = self;
        o.parallel = parallel;
        o
    }

    /// The options without parallel parsing.
    pub fn sequential(self) -> (r: ParseOptions)
        ensures
            r == (ParseOptions { parallel: false, ..self }),
    {
        let mut o = self;
        o.parallel = false;
        o
    }

    /// The options with the page selection set.
    pub fn with_pages(self, pages: PageSelection) -> (r: ParseOptions)
        ensures
            r == (ParseOptions { pages, ..self }),
    {
        let mut o = self;
        o.pages = pages;
        o
    }

    /// The options with the password set.
    pub fn with_password(self, password: &str) -> (r: ParseOptions)
        ensures
            r.password is Some,
            r.password->0@ == password@,
            (ParseOptions { password: self.password, ..r }) == self,
    {
        let mut o = self;
        o.password = Some(password.to_owned());
        o
    }
}

} // verus!
