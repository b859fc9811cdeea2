//! The error type shared by the parser and the renderers.

use crate::text::{append_decimal, append_str, decimal};
use vstd::prelude::*;

verus! {

/// `std::io::Error`, of which nothing is known here: an error holds one and
/// hands it on.
#[verifier::external_type_specification]
#[verifier::external_body]
pub struct ExIoError(std::io::Error);

/// What can go wrong while a document is read or rendered.
#[derive(Debug)]
pub enum Error {
    /// Reading or writing the container failed.
    Io(std::io::Error),
    /// The input does not start like a PDF file.
    UnknownFormat,
    /// The header names a version that is not of the form `digit.digit`.
    UnsupportedVersion(String),
    /// The container's structure could not be parsed.
    PdfParse(String),
    /// The document is encrypted and no usable key is available.
    Encrypted,
    /// The password given does not open the document.
    InvalidPassword,
    /// The container is structurally damaged.
    Corrupted(String),
    /// An object that the document refers to is missing.
    MissingObject(String),
    /// A font's data could not be decoded.
    FontDecode(String),
    /// An embedded image could not be extracted.
    ImageExtract(String),
    /// Rendering to the output format failed.
    Render(String),
    /// The text of a page could not be extracted.
    TextExtract(String),
    /// The page asked for does not exist: the page, then the page count.
    PageOutOfRange(u32, u32),
    /// A page selection string does not follow the grammar.
    InvalidPageRange(String),
    /// No resource has the given id.
    ResourceNotFound(String),
    /// Text could not be converted between encodings.
    Encoding(String),
    /// Any other failure.
    Other(String),
}

/// The `Display` text of a `std::io::Error`. Nothing is claimed of it.
#[verifier::external_body]
fn io_error_text(e: &std::io::Error) -> (s: String) {
    format!("{}", e)
}

/// The fixed part of the message that comes before the detail of `e`.
pub open spec fn message_prefix(e: Error) -> Seq<char> {
    match e {
        Error::Io(_) => "I/O error: "@,
        Error::UnknownFormat => "Unknown file format: not a valid PDF"@,
        Error::UnsupportedVersion(_) => "Unsupported PDF version: "@,
        Error::PdfParse(_) => "PDF parsing error: "@,
        Error::Encrypted => "Document is encrypted"@,
        Error::InvalidPassword => "Invalid password"@,
        Error::Corrupted(_) => "Corrupted PDF structure: "@,
        Error::MissingObject(_) => "Missing required object: "@,
        Error::FontDecode(_) => "Font decoding error: "@,
        Error::ImageExtract(_) => "Image extraction error: "@,
        Error::Render(_) => "Rendering error: "@,
        Error::TextExtract(_) => "Text extraction error: "@,
        Error::PageOutOfRange(_, _) => "Page "@,
        Error::InvalidPageRange(_) => "Invalid page range: "@,
        Error::ResourceNotFound(_) => "Resource not found: "@,
        Error::Encoding(_) => "Encoding error: "@,
        Error::Other(_) => Seq::empty(),
    }
}

/// The detail that follows the prefix in the message of `e`; for an I/O
/// error it is the text of the underlying error, which is not modelled.
pub open spec fn message_detail(e: Error) -> Option<Seq<char>> {
    match e {
        Error::Io(_) => None,
        Error::UnknownFormat | Error::Encrypted | Error::InvalidPassword => Some(Seq::empty()),
        Error::UnsupportedVersion(s)
        | Error::PdfParse(s)
        | Error::Corrupted(s)
        | Error::MissingObject(s)
        | Error::FontDecode(s)
        | Error::ImageExtract(s)
        | Error::Render(s)
        | Error::TextExtract(s)
        | Error::InvalidPageRange(s)
        | Error::ResourceNotFound(s)
        | Error::Encoding(s)
        | Error::Other(s) => Some(s@),
        Error::PageOutOfRange(page, total) => Some(
            decimal(page as nat) + " is out of range (document has "@ + decimal(total as nat)
                + " pages)"@,
        ),
    }
}

impl Error {
    /// The one-line message of this error.
    pub fn to_string(&self) -> (s: String)
        ensures
            match message_detail(*self) {
                Some(d) => s@ == message_prefix(*self) + d,
                None => s@.len() >= message_prefix(*self).len() && s@.subrange(
                    0,
                    message_prefix(*self).len() as int,
                ) == message_prefix(*self),
            },
    {
        let mut out = String::new();
        match self {
            Error::Io(e) => {
                append_str(&mut out, "I/O error: ");
                let t = io_error_text(e);
                let ghost before = out@;
                append_str(&mut out, t.as_str());
                assert(out@.subrange(0, before.len() as int) == before);
            },
            Error::UnknownFormat => {
                append_str(&mut out, "Unknown file format: not a valid PDF");
            },
            Error::UnsupportedVersion(s) => {
                append_str(&mut out, "Unsupported PDF version: ");
                append_str(&mut out, s.as_str());
            },
            Error::PdfParse(s) => {
                append_str(&mut out, "PDF parsing error: ");
                append_str(&mut out, s.as_str());
            },
            Error::Encrypted => {
                append_str(&mut out, "Document is encrypted");
            },
            Error::InvalidPassword => {
                append_str(&mut out, "Invalid password");
            },
            Error::Corrupted(s) => {
                append_str(&mut out, "Corrupted PDF structure: ");
                append_str(&mut out, s.as_str());
            },
            Error::MissingObject(s) => {
                append_str(&mut out, "Missing required object: ");
                append_str(&mut out, s.as_str());
            },
            Error::FontDecode(s) => {
                append_str(&mut out, "Font decoding error: ");
                append_str(&mut out, s.as_str());
            },
            Error::ImageExtract(s) => {
                append_str(&mut out, "Image extraction error: ");
                append_str(&mut out, s.as_str());
            },
            Error::Render(s) => {
                append_str(&mut out, "Rendering error: ");
                append_str(&mut out, s.as_str());
            },
            Error::TextExtract(s) => {
                append_str(&mut out, "Text extraction error: ");
                append_str(&mut out, s.as_str());
            },
            Error::PageOutOfRange(page, total) => {
                append_str(&mut out, "Page ");
                append_decimal(&mut out, *page as u64);
                append_str(&mut out, " is out of range (document has ");
                append_decimal(&mut out, *total as u64);
                append_str(&mut out, " pages)");
                assert(out@ == "Page "@ + (decimal(*page as nat)
                    + " is out of range (document has "@ + decimal(*total as nat) + " pages)"@));
            },
            Error::InvalidPageRange(s) => {
                append_str(&mut out, "Invalid page range: ");
                append_str(&mut out, s.as_str());
            },
            Error::ResourceNotFound(s) => {
                append_str(&mut out, "Resource not found: ");
                append_str(&mut out, s.as_str());
            },
            Error::Encoding(s) => {
                append_str(&mut out, "Encoding error: ");
                append_str(&mut out, s.as_str());
            },
            Error::Other(s) => {
                append_str(&mut out, s.as_str());
            },
        }
        out
    }
}

impl From<std::io::Error> for Error {
    fn from(err: std::io::Error) -> (r: Error)
        ensures
            r == Error::Io(err),
    {
        Error::Io(err)
    }
}

impl vstd::std_specs::convert::FromSpecImpl<std::io::Error> for Error {
    open spec fn obeys_from_spec() -> bool {
        true
    }

    open spec fn from_spec(v: std::io::Error) -> Error {
        Error::Io(v)
    }
}

} // verus!
