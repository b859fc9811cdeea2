//! The interface between the layout analysis and a PDF object library.
//!
//! A backend enumerates pages, hands out decompressed content streams and
//! decodes strings through a page's fonts. The analysis is written against
//! this trait alone.

use crate::detect::{lossy_text, utf8_lossy};
use crate::error::Error;
use vstd::prelude::*;
use vstd::utf8::{decode_utf8, valid_utf8};

verus! {

/// Identifies a page object: object number and generation.
pub type PageId = (u32, u16);

/// A font of a page, as the backend reports it.
#[derive(Debug, Clone)]
pub struct BackendFontInfo {
    /// The name under which the page's resources list the font.
    pub name: Vec<u8>,
    /// The font's base name, such as `Helvetica-Bold`.
    pub base_font: String,
}

/// An operand of a content stream operation.
#[derive(Debug)]
pub enum PdfValue {
    /// A whole number.
    Integer(i64),
    /// A real number, in thousandths.
    Real(i64),
    /// A name object.
    Name(Vec<u8>),
    /// A string object, still in the font's encoding.
    Str(Vec<u8>),
    /// An array of operands.
    Array(Vec<PdfValue>),
    /// Anything else.
    Other,
}

/// One operation of a content stream: an operator and its operands.
#[derive(Debug)]
pub struct ContentOp {
    /// The operator token.
    pub operator: String,
    /// The operands that precede it.
    pub operands: Vec<PdfValue>,
}

/// Access to a loaded PDF document. Nothing is assumed of an
/// implementation: the analysis states what it makes of whatever the
/// backend answers.
pub trait PdfBackend {
    /// All pages, by ascending page number.
    fn pages(&self) -> Vec<(u32, PageId)>;

    /// The fonts of a page.
    fn page_fonts(&self, page: PageId) -> Result<Vec<BackendFontInfo>, Error>;

    /// The decompressed content stream of a page.
    fn page_content(&self, page: PageId) -> Result<Vec<u8>, Error>;

    /// The operations that a content stream consists of.
    fn decode_content(&self, data: &[u8]) -> Result<Vec<ContentOp>, Error>;

    /// The text of a string operand, decoded through the named font of the
    /// page; where the font gives no encoding, as [`decode_text_simple`] does.
    fn decode_text(&self, page: PageId, font_name: &[u8], bytes: &[u8]) -> String;
}

/// What `String::from_utf16` makes of the code units: their text, or nothing
/// where a surrogate stands alone.
pub uninterp spec fn utf16_text(units: Seq<u16>) -> Option<Seq<char>>;

/// `String::from_utf16`. Not proved: that the result is the text that
/// [`utf16_text`] names, and nothing exactly where that is nothing.
#[verifier::external_body]
pub(crate) fn text_from_utf16(units: &Vec<u16>) -> (r: Option<String>)
    ensures
        match r {
            Some(s) => utf16_text(units@) == Some(s@),
            None => utf16_text(units@) is None,
        },
{
    String::from_utf16(units).ok()
}

/// `String::from_utf8`. Not proved: that the result is the decoded text
/// where the bytes are well-formed UTF-8, and nothing otherwise.
#[verifier::external_body]
pub(crate) fn text_from_utf8(bytes: &[u8]) -> (r: Option<String>)
    ensures
        match r {
            Some(s) => valid_utf8(bytes@) && s@ == decode_utf8(bytes@),
            None => !valid_utf8(bytes@),
        },
{
    String::from_utf8(bytes.to_vec()).ok()
}

/// The big-endian 16-bit units of `bytes`; an odd last byte is dropped.
pub open spec fn be_units(bytes: Seq<u8>) -> Seq<u16> {
    Seq::new(bytes.len() / 2, |i: int| (bytes[2 * i] * 256 + bytes[2 * i + 1]) as u16)
}

/// Each byte as the character with that code point.
pub open spec fn latin1(bytes: Seq<u8>) -> Seq<char> {
    Seq::new(bytes.len(), |i: int| bytes[i] as char)
}

/// `bytes` starts with the byte order mark FE FF.
pub open spec fn has_utf16_mark(bytes: Seq<u8>) -> bool {
    bytes.len() >= 2 && bytes[0] == 0xFE && bytes[1] == 0xFF
}

/// The text of a string when its font gives no encoding: UTF-16BE after the
/// mark FE FF (nothing where that is ill-formed), else UTF-8 where the bytes
/// are well-formed UTF-8, else Latin-1.
pub open spec fn simple_text(bytes: Seq<u8>) -> Seq<char> {
    if has_utf16_mark(bytes) {
        match utf16_text(be_units(bytes.subrange(2, bytes.len() as int))) {
            Some(s) => s,
            None => Seq::empty(),
        }
    } else if valid_utf8(bytes) {
        decode_utf8(bytes)
    } else {
        latin1(bytes)
    }
}

/// Decodes a string without a font encoding; see [`simple_text`].
pub fn decode_text_simple(bytes: &[u8]) -> (s: String)
    ensures
        s@ == simple_text(bytes@),
{
    let n = bytes.len();
    if n >= 2 && bytes[0] == 0xFE && bytes[1] == 0xFF {
        let ghost rest = bytes@.subrange(2, n as int);
        let mut units: Vec<u16> = Vec::new();
        let mut i: usize = 2;
        while i < n && n - i >= 2
            invariant
                2 <= i <= n,
                n == bytes.len(),
                (i - 2) % 2 == 0,
                rest == bytes@.subrange(2, n as int),
                units@ == Seq::new(
                    ((i - 2) / 2) as nat,
                    |k: int| (rest[2 * k] * 256 + rest[2 * k + 1]) as u16,
                ),
            decreases n - i,
        {
            let hi: u16 = bytes[i] as u16;
            let lo: u16 = bytes[i + 1] as u16;
            units.push(hi * 256 + lo);
            i += 2;
        }
        assert(units@ == be_units(rest));
        return match text_from_utf16(&units) {
            Some(s) => s,
            None => String::new(),
        };
    }
    match text_from_utf8(bytes) {
        Some(s) => s,
        None => {
            let mut out = String::new();
            let mut i: usize = 0;
            while i < n
                invariant
                    i <= n,
                    n == bytes.len(),
                    out@ == latin1(bytes@).take(i as int),
                decreases n - i,
            {
                crate::text::push_char(&mut out, bytes[i] as char);
                i += 1;
            }
            out
        },
    }
}

/// The number that an operand stands for, in thousandths.
pub open spec fn number_of(v: PdfValue) -> Option<int> {
    match v {
        PdfValue::Integer(i) => Some(i * 1000),
        PdfValue::Real(r) => Some(r as int),
        _ => None,
    }
}

/// The number that an operand stands for, in thousandths and limited to the
/// range of `i64`; nothing for an operand that is no number.
pub fn get_number_from_value(val: &PdfValue) -> (r: Option<i64>)
    ensures
        match r {
            Some(n) => number_of(*val) is Some && n == crate::units::clamp64(
                number_of(*val).unwrap(),
            ),
            None => number_of(*val) is None,
        },
{
    match val {
        PdfValue::Integer(i) => {
            let i: i64 = *i;
            if i > i64::MAX / 1000 {
                Some(i64::MAX)
            } else if i < i64::MIN / 1000 {
                Some(i64::MIN)
            } else {
                Some(i * 1000)
            }
        },
        PdfValue::Real(r) => Some(*r),
        _ => None,
    }
}

/// The content of a page that consists of several streams: the streams in
/// their order, with one blank between each two.
pub open spec fn joined_streams(parts: Seq<Vec<u8>>) -> Seq<u8>
    decreases parts.len(),
{
    if parts.len() == 0 {
        Seq::empty()
    } else if parts.len() == 1 {
        parts[0]@
    } else {
        joined_streams(parts.drop_last()) + seq![0x20u8] + parts.last()@
    }
}

/// Joins the streams of a page into one content stream; see
/// [`joined_streams`].
pub fn join_streams(parts: &Vec<Vec<u8>>) -> (r: Vec<u8>)
    ensures
        r@ == joined_streams(parts@),
{
    let mut out: Vec<u8> = Vec::new();
    let mut i: usize = 0;
    while i < parts.len()
        invariant
            i <= parts.len(),
            out@ == joined_streams(parts@.take(i as int)),
        decreases parts.len() - i,
    {
        assert(parts@.take(i + 1).drop_last() == parts@.take(i as int));
        if i > 0 {
            out.push(0x20u8);
        }
        let part = &parts[i];
        let ghost before = out@;
        let mut k: usize = 0;
        while k < part.len()
            invariant
                k <= part.len(),
                out@ == before + part@.take(k as int),
            decreases part.len() - k,
        {
            out.push(part[k]);
            assert(part@.take(k + 1) == part@.take(k as int).push(part@[k as int]));
            k += 1;
        }
        assert(part@.take(part.len() as int) == part@);
        assert(out@ =~= joined_streams(parts@.take(i + 1)));
        i += 1;
    }
    assert(parts@.take(parts.len() as int) == parts@);
    out
}

/// The font of a page under `name`: its base name is the text of the name
/// object `base_font`, and `Unknown` where the font dictionary has none.
pub fn font_info(name: &[u8], base_font: Option<&[u8]>) -> (r: BackendFontInfo)
    ensures
        r.name@ == name@,
        r.base_font@ == match base_font {
            Some(b) => utf8_lossy(b@),
            None => "Unknown"@,
        },
{
    let base = match base_font {
        Some(b) => lossy_text(b),
        None => "Unknown".to_owned(),
    };
    BackendFontInfo { name: slice_to_vec(name), base_font: base }
}

fn slice_to_vec(bytes: &[u8]) -> (r: Vec<u8>)
    ensures
        r@ == bytes@,
{
    let mut r: Vec<u8> = Vec::new();
    let mut i: usize = 0;
    while i < bytes.len()
        invariant
            i <= bytes.len(),
            r@ == bytes@.take(i as int),
        decreases bytes.len() - i,
    {
        r.push(bytes[i]);
        i += 1;
    }
    assert(bytes@.take(bytes.len() as int) == bytes@);
    r
}

} // verus!
