//! Recognising a PDF file by its header.

use crate::error::Error;
use crate::text::{is_ascii_digit, push_char, to_chars};
use vstd::prelude::*;

verus! {

/// What the header says about the file.
#[derive(Debug, Clone, PartialEq, Eq)]
pub struct PdfFormat {
    /// The version, such as `1.7`.
    pub version: String,
    /// Whether the file is laid out for incremental loading.
    pub linearized: bool,
}

/// Bytes needed to tell: the magic and a three-byte version.
pub const HEADER_LEN: usize = 8;

/// `data` starts with the five bytes `%PDF-` and has room for a version.
pub open spec fn has_magic(data: Seq<u8>) -> bool {
    data.len() >= 8 && data[0] == 0x25 && data[1] == 0x50 && data[2] == 0x44 && data[3] == 0x46
        && data[4] == 0x2D
}

/// A byte that is an ASCII decimal digit.
pub open spec fn is_digit_byte(b: u8) -> bool {
    0x30 <= b <= 0x39
}

/// `data` starts with `%PDF-`, a digit, a dot and a digit.
pub open spec fn has_pdf_header(data: Seq<u8>) -> bool {
    has_magic(data) && is_digit_byte(data[5]) && data[6] == 0x2E && is_digit_byte(data[7])
}

/// The three characters of the version in a well-formed header.
pub open spec fn header_version(data: Seq<u8>) -> Seq<char>
    recommends
        has_pdf_header(data),
{
    seq![data[5] as char, '.', data[7] as char]
}

/// A version is a digit, a dot and a digit.
pub open spec fn valid_version(version: Seq<char>) -> bool {
    version.len() == 3 && is_ascii_digit(version[0]) && version[1] == '.' && is_ascii_digit(
        version[2],
    )
}

/// What `String::from_utf8_lossy` makes of the bytes: their text, with each
/// ill-formed sequence replaced by U+FFFD.
pub uninterp spec fn utf8_lossy(bytes: Seq<u8>) -> Seq<char>;

/// `String::from_utf8_lossy`, as an owned string. Not proved: that the
/// result is the text that [`utf8_lossy`] names.
#[verifier::external_body]
pub(crate) fn lossy_text(bytes: &[u8]) -> (s: String)
    ensures
        s@ == utf8_lossy(bytes@),
{
    String::from_utf8_lossy(bytes).into_owned()
}

/// Tests whether `version` is a digit, a dot and a digit.
pub fn is_valid_version(version: &str) -> (r: bool)
    ensures
        r == valid_version(version@),
{
    let v = to_chars(version);
    v.len() == 3 && '0' <= v[0] && v[0] <= '9' && v[1] == '.' && '0' <= v[2] && v[2] <= '9'
}

/// Reads the format from the first bytes of a file.
///
/// Fails with `UnknownFormat` unless the data starts with `%PDF-` and three
/// more bytes, and with `UnsupportedVersion` when those three bytes are not a
/// digit, a dot and a digit; the error then carries their lossy text.
pub fn detect_format_from_bytes(data: &[u8]) -> (r: Result<PdfFormat, Error>)
    ensures
        match r {
            Ok(f) => has_pdf_header(data@) && f.version@ == header_version(data@)
                && !f.linearized,
            Err(Error::UnknownFormat) => !has_magic(data@),
            Err(Error::UnsupportedVersion(v)) => has_magic(data@) && !has_pdf_header(data@) && v@
                == utf8_lossy(data@.subrange(5, 8)),
            Err(_) => false,
        },
{
    if data.len() < HEADER_LEN {
        return Err(Error::UnknownFormat);
    }
    if !(data[0] == 0x25 && data[1] == 0x50 && data[2] == 0x44 && data[3] == 0x46 && data[4]
        == 0x2D) {
        return Err(Error::UnknownFormat);
    }
    let major = data[5];
    let dot = data[6];
    let minor = data[7];
    if !(0x30 <= major && major <= 0x39 && dot == 0x2E && 0x30 <= minor && minor <= 0x39) {
        let mut raw: Vec<u8> = Vec::new();
        raw.push(major);
        raw.push(dot);
        raw.push(minor);
        assert(raw@ == data@.subrange(5, 8));
        return Err(Error::UnsupportedVersion(lossy_text(raw.as_slice())));
    }
    let mut version = String::new();
    push_char(&mut version, major as char);
    push_char(&mut version, '.');
    push_char(&mut version, minor as char);
    assert(version@ == header_version(data@));
    Ok(PdfFormat { version, linearized: false })
}

/// Tests whether the bytes start like a PDF file: `%PDF-`, then a digit, a
/// dot and a digit.
pub fn is_pdf_bytes(data: &[u8]) -> (r: bool)
    ensures
        r == has_pdf_header(data@),
{
    match detect_format_from_bytes(data) {
        Ok(_) => true,
        Err(_) => false,
    }
}

} // verus!
