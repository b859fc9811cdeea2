//! What a PDF container says about the document besides its pages' text:
//! the info dictionary, page sizes, image objects and destinations. The
//! values are read from the container elsewhere and interpreted here.

use crate::detect::{lossy_text, utf8_lossy};
use crate::error::Error;
use crate::model::document::{timestamp_text, Metadata, Outline, Timestamp};
use crate::model::resource::{Resource, ResourceType};
use crate::parser::backend::{
    be_units, has_utf16_mark, latin1, text_from_utf16, text_from_utf8, utf16_text, PageId,
};
use crate::text::{
    all_digits, digits_value, parse_u32, parsed_u32, push_char, same_str, slice_chars, to_chars,
};
use vstd::prelude::*;
use vstd::utf8::{decode_utf8, valid_utf8};

verus! {

/// An entry of the info dictionary as the container holds it.
#[derive(Debug, Clone)]
pub enum InfoValue {
    /// A string object.
    Text(Vec<u8>),
    /// A name object.
    Name(Vec<u8>),
}

/// The media box of a page that gives one with four entries or more, in
/// thousandths of a point.
#[derive(Debug, Clone, Copy, PartialEq, Eq, Structural)]
pub struct PageBox {
    /// The page number, from 1.
    pub number: u32,
    /// The third entry of the box, where it is a number.
    pub width: Option<i32>,
    /// The fourth entry of the box, where it is a number.
    pub height: Option<i32>,
}

/// An entry of a dictionary where a name is looked for.
#[derive(Debug, Clone)]
pub enum NameEntry {
    /// The dictionary has no such entry.
    Absent,
    /// The entry is a name object.
    Name(Vec<u8>),
    /// The entry is an object of another kind.
    Other,
}

/// The colour space entry of an image dictionary.
#[derive(Debug, Clone)]
pub enum ColorSpaceEntry {
    /// The dictionary has no such entry.
    Absent,
    /// The entry is a name object.
    Name(Vec<u8>),
    /// The entry is an array; the first item of the array is looked at.
    Array(NameEntry),
    /// The entry is an object of another kind.
    Other,
}

/// An image object of a page, as the container holds it.
#[derive(Debug, Clone)]
pub struct XObjectInfo {
    /// The entry `Subtype`.
    pub subtype: NameEntry,
    /// The width in pixels, where given.
    pub width: Option<i64>,
    /// The height in pixels, where given.
    pub height: Option<i64>,
    /// The bits per component, where given.
    pub bits_per_component: Option<i64>,
    /// The entry `Filter`.
    pub filter: NameEntry,
    /// The content as stored.
    pub content: Vec<u8>,
    /// The content decompressed, where that succeeds.
    pub decompressed: Option<Vec<u8>>,
    /// The entry `ColorSpace`.
    pub color_space: ColorSpaceEntry,
}

/// An image object under its page and name.
#[derive(Debug, Clone)]
pub struct XObjectEntry {
    /// The number of the page that lists the object.
    pub page: u32,
    /// The name under which the page lists it.
    pub name: String,
    /// The object.
    pub object: XObjectInfo,
}

/// What the container says about the document.
#[derive(Debug)]
pub struct ContainerInfo {
    /// The PDF version.
    pub version: String,
    /// Whether the container is encrypted.
    pub encrypted: bool,
    pub title: Option<InfoValue>,
    pub author: Option<InfoValue>,
    pub subject: Option<InfoValue>,
    pub keywords: Option<InfoValue>,
    pub creator: Option<InfoValue>,
    pub producer: Option<InfoValue>,
    pub creation_date: Option<InfoValue>,
    pub mod_date: Option<InfoValue>,
    /// The sizes of the pages that give one.
    pub page_boxes: Vec<PageBox>,
    /// The outline, where the document has one.
    pub outline: Option<Outline>,
    /// The image objects of the pages.
    pub xobjects: Vec<XObjectEntry>,
}

/// The text of an entry of the info dictionary. A string is UTF-16BE after
/// the mark FE FF, else UTF-8 where it is well-formed, else Latin-1; a name
/// is UTF-8. Nothing where the encoding is ill-formed.
pub open spec fn info_text(v: InfoValue) -> Option<Seq<char>> {
    match v {
        InfoValue::Text(bytes) => if has_utf16_mark(bytes@) {
            utf16_text(be_units(bytes@.subrange(2, bytes@.len() as int)))
        } else if valid_utf8(bytes@) {
            Some(decode_utf8(bytes@))
        } else {
            Some(latin1(bytes@))
        },
        InfoValue::Name(bytes) => if valid_utf8(bytes@) {
            Some(decode_utf8(bytes@))
        } else {
            None
        },
    }
}

/// The text of an optional entry.
pub open spec fn entry_text(v: Option<InfoValue>) -> Option<Seq<char>> {
    match v {
        Some(value) => info_text(value),
        None => None,
    }
}

/// Decodes an entry of the info dictionary; see [`info_text`].
pub fn get_string_from_dict(value: &InfoValue) -> (r: Option<String>)
    ensures
        match r {
            Some(s) => info_text(*value) == Some(s@),
            None => info_text(*value) is None,
        },
{
    match value {
        InfoValue::Text(bytes) => {
            let n = bytes.len();
            if n >= 2 && bytes[0] == 0xFE && bytes[1] == 0xFF {
                let ghost rest = bytes@.subrange(2, n as int);
                let mut units: Vec<u16> = Vec::new();
                let mut i: usize = 2;
                while i < n && n - i >= 2
                    invariant
                        2 <= i <= n,
                        n == bytes.len(),
                        (i - 2) % 2 == 0,
                        rest == bytes@.subrange(2, n as int),
                        units@ == Seq::new(
                            ((i - 2) / 2) as nat,
                            |k: int| (rest[2 * k] * 256 + rest[2 * k + 1]) as u16,
                        ),
                    decreases n - i,
                {
                    let hi: u16 = bytes[i] as u16;
                    let lo: u16 = bytes[i + 1] as u16;
                    units.push(hi * 256 + lo);
                    i += 2;
                }
                assert(units@ == be_units(rest));
                text_from_utf16(&units)
            } else {
                match text_from_utf8(bytes.as_slice()) {
                    Some(s) => Some(s),
                    None => {
                        let mut out = String::new();
                        let mut i: usize = 0;
                        while i < n
                            invariant
                                i <= n,
                                n == bytes.len(),
                                out@ == latin1(bytes@).take(i as int),
                            decreases n - i,
                        {
                            push_char(&mut out, bytes[i] as char);
                            i += 1;
                        }
                        Some(out)
                    },
                }
            }
        },
        InfoValue::Name(bytes) => text_from_utf8(bytes.as_slice()),
    }
}

fn entry_string(value: &Option<InfoValue>) -> (r: Option<String>)
    ensures
        match r {
            Some(s) => entry_text(*value) == Some(s@),
            None => entry_text(*value) is None,
        },
{
    match value {
        Some(v) => get_string_from_dict(v),
        None => None,
    }
}

/// The number that a field of a date writes: digits after an optional sign,
/// a minus only where `signed` allows it.
pub open spec fn field_value(text: Seq<char>, signed: bool) -> Option<int> {
    if signed && text.len() > 0 && text[0] == '-' {
        let digits = text.drop_first();
        if digits.len() > 0 && all_digits(digits) && digits_value(digits) <= 0x7FFF_FFFF {
            Some(-digits_value(digits))
        } else {
            None
        }
    } else {
        match parsed_u32(text) {
            Some(v) => if signed && v > 0x7FFF_FFFF {
                None
            } else {
                Some(v as int)
            },
            None => None,
        }
    }
}

/// The two characters of a date from `at`, as a number; `default` where
/// the date is too short or the characters write no number.
pub open spec fn date_field(text: Seq<char>, at: int, default: u32) -> u32 {
    if at + 2 <= text.len() {
        match parsed_u32(text.subrange(at, at + 2)) {
            Some(v) => v,
            None => default,
        }
    } else {
        default
    }
}

/// The date that a PDF date string writes: after `D:`, four characters for
/// the year, then two each for month, day, hour, minute and second, as far
/// as they are there; month and day default to 1, the others to 0. Nothing
/// where the prefix or the year is missing or the date does not exist.
pub open spec fn parsed_date(s: Seq<char>) -> Option<Timestamp> {
    if s.len() >= 6 && s[0] == 'D' && s[1] == ':' {
        let t = s.subrange(2, s.len() as int);
        match field_value(t.subrange(0, 4), true) {
            Some(year) => {
                let stamp = Timestamp {
                    year: year as i32,
                    month: date_field(t, 4, 1),
                    day: date_field(t, 6, 1),
                    hour: date_field(t, 8, 0),
                    minute: date_field(t, 10, 0),
                    second: date_field(t, 12, 0),
                };
                if timestamp_text(stamp) is Some {
                    Some(stamp)
                } else {
                    None
                }
            },
            None => None,
        }
    } else {
        None
    }
}

fn parse_year(text: &Vec<char>) -> (r: Option<i32>)
    requires
        text.len() == 4,
    ensures
        match r {
            Some(y) => field_value(text@, true) == Some(y as int),
            None => field_value(text@, true) is None,
        },
{
    if text[0] == '-' {
        let digits = slice_chars(text, 1, 4);
        assert(digits@ == text@.drop_first());
        if digits[0] == '+' {
            assert(!crate::text::is_ascii_digit(digits@[0]));
            assert(!all_digits(digits@));
            return None;
        }
        assert(crate::text::unsigned_part(digits@) == digits@);
        match parse_u32(&digits) {
            Some(v) => {
                proof {
                    crate::text::lemma_digits_value_nonnegative(digits@);
                }
                assert(all_digits(digits@) && digits_value(digits@) == v);
                if v <= 0x7FFF_FFFF {
                    let y: i32 = -(v as i32);
                    assert(field_value(text@, true) == Some(y as int));
                    Some(y)
                } else {
                    None
                }
            },
            None => {
                assert(field_value(text@, true) is None);
                None
            },
        }
    } else {
        match parse_u32(text) {
            Some(v) => if v > 0x7FFF_FFFF {
                None
            } else {
                Some(v as i32)
            },
            None => None,
        }
    }
}

fn parse_field(text: &Vec<char>, at: usize, default: u32) -> (r: u32)
    requires
        at <= 12,
    ensures
        r == date_field(text@, at as int, default),
{
    if text.len() >= 2 && at <= text.len() - 2 {
        match parse_u32(&slice_chars(text, at, at + 2)) {
            Some(v) => v,
            None => default,
        }
    } else {
        default
    }
}

/// Reads a PDF date string such as `D:20240115103045`; see [`parsed_date`].
pub fn parse_pdf_date(s: &str) -> (r: Option<Timestamp>)
    ensures
        r == parsed_date(s@),
{
    let v = to_chars(s);
    if !(v.len() >= 6 && v[0] == 'D' && v[1] == ':') {
        return None;
    }
    let t = slice_chars(&v, 2, v.len());
    let year = match parse_year(&slice_chars(&t, 0, 4)) {
        Some(y) => y,
        None => {
            return None;
        },
    };
    let stamp = Timestamp {
        year,
        month: parse_field(&t, 4, 1),
        day: parse_field(&t, 6, 1),
        hour: parse_field(&t, 8, 0),
        minute: parse_field(&t, 10, 0),
        second: parse_field(&t, 12, 0),
    };
    if stamp.is_valid() {
        Some(stamp)
    } else {
        None
    }
}

/// The date of an entry of the info dictionary.
pub open spec fn entry_date(v: Option<InfoValue>) -> Option<Timestamp> {
    match entry_text(v) {
        Some(s) => parsed_date(s),
        None => None,
    }
}

/// The metadata is what the container says: the version, the texts of the
/// info dictionary, the dates it writes, and whether it is encrypted. The
/// page count is still 0 and the document is not marked as tagged.
pub open spec fn is_metadata_of(m: Metadata, info: ContainerInfo) -> bool {
    &&& m.pdf_version@ == info.version@
    &&& text_is(m.title, entry_text(info.title))
    &&& text_is(m.author, entry_text(info.author))
    &&& text_is(m.subject, entry_text(info.subject))
    &&& text_is(m.keywords, entry_text(info.keywords))
    &&& text_is(m.creator, entry_text(info.creator))
    &&& text_is(m.producer, entry_text(info.producer))
    &&& m.created == entry_date(info.creation_date)
    &&& m.modified == entry_date(info.mod_date)
    &&& m.encrypted == info.encrypted
    &&& m.page_count == 0
    &&& !m.tagged
}

/// An optional string holds the optional text.
pub open spec fn text_is(s: Option<String>, text: Option<Seq<char>>) -> bool {
    match text {
        Some(t) => s matches Some(v) && v@ == t,
        None => s is None,
    }
}

fn entry_timestamp(value: &Option<InfoValue>) -> (r: Option<Timestamp>)
    ensures
        r == entry_date(*value),
{
    match entry_string(value) {
        Some(s) => parse_pdf_date(s.as_str()),
        None => None,
    }
}

/// Takes the metadata from what the container says; see
/// [`is_metadata_of`].
pub fn extract_metadata(info: &ContainerInfo) -> (m: Metadata)
    ensures
        is_metadata_of(m, *info),
{
    let mut m = Metadata::with_version(info.version.as_str());
    m.title = entry_string(&info.title);
    m.author = entry_string(&info.author);
    m.subject = entry_string(&info.subject);
    m.keywords = entry_string(&info.keywords);
    m.creator = entry_string(&info.creator);
    m.producer = entry_string(&info.producer);
    m.created = entry_timestamp(&info.creation_date);
    m.modified = entry_timestamp(&info.mod_date);
    m.encrypted = info.encrypted;
    m
}

/// The text of an entry that is a name in well-formed UTF-8.
pub open spec fn entry_name(e: NameEntry) -> Option<Seq<char>> {
    match e {
        NameEntry::Name(bytes) => if valid_utf8(bytes@) {
            Some(decode_utf8(bytes@))
        } else {
            None
        },
        _ => None,
    }
}

/// The name of the filter of an image object; empty where the object names
/// none.
pub open spec fn filter_name(x: XObjectInfo) -> Seq<char> {
    match entry_name(x.filter) {
        Some(s) => s,
        None => Seq::empty(),
    }
}

/// The name of the colour space of an image object: the name that the
/// entry is, or the name that the first item of the array is.
pub open spec fn color_space_name(x: XObjectInfo) -> Option<Seq<char>> {
    match x.color_space {
        ColorSpaceEntry::Name(bytes) => Some(utf8_lossy(bytes@)),
        ColorSpaceEntry::Array(first) => entry_name(first),
        _ => None,
    }
}

/// The data of the object is used decompressed: it names a Flate or LZW
/// filter, or none.
pub open spec fn is_compressed(x: XObjectInfo) -> bool {
    let filter = filter_name(x);
    filter == "FlateDecode"@ || filter == "LZWDecode"@ || filter.len() == 0
}

/// The data of the object can be had: as stored, or decompressed where
/// decompressing worked.
pub open spec fn is_decodable(x: XObjectInfo) -> bool {
    is_compressed(x) ==> x.decompressed is Some
}

/// The MIME type and the data of an image object whose data can be had, by
/// its filter: JPEG and JPEG 2000 data as stored, anything else as raw
/// bytes, decompressed where a Flate or LZW filter or none is named.
pub open spec fn image_payload(x: XObjectInfo) -> (Seq<char>, Seq<u8>) {
    let filter = filter_name(x);
    if filter == "DCTDecode"@ {
        ("image/jpeg"@, x.content@)
    } else if is_compressed(x) {
        (
            "application/octet-stream"@,
            match x.decompressed {
                Some(d) => d@,
                None => Seq::empty(),
            },
        )
    } else if filter == "JPXDecode"@ {
        ("image/jp2"@, x.content@)
    } else {
        ("application/octet-stream"@, x.content@)
    }
}

/// The object is an image: it has no subtype, or the subtype is the name
/// `Image`.
pub open spec fn is_image_object(x: XObjectInfo) -> bool {
    match x.subtype {
        NameEntry::Absent => true,
        _ => entry_name(x.subtype) == Some("Image"@),
    }
}

/// The resource is the image of the object: the payload, the size where
/// both width and height are given, the bits per component and the colour
/// space where given. Numbers are cut to the width of their fields.
pub open spec fn is_resource_of(r: Resource, x: XObjectInfo) -> bool {
    &&& r.resource_type == ResourceType::Image
    &&& r.mime_type@ == image_payload(x).0
    &&& r.data@ == image_payload(x).1
    &&& r.filename is None
    &&& match (x.width, x.height) {
        (Some(w), Some(h)) => r.width == Some(w as u32) && r.height == Some(h as u32),
        _ => r.width is None && r.height is None,
    }
    &&& match x.bits_per_component {
        Some(b) => r.bits_per_component == Some(b as u8),
        None => r.bits_per_component is None,
    }
    &&& match color_space_name(x) {
        Some(c) => r.color_space matches Some(s) && s@ == c,
        None => r.color_space is None,
    }
}

fn copy_bytes(a: &Vec<u8>) -> (r: Vec<u8>)
    ensures
        r@ == a@,
{
    let mut r: Vec<u8> = Vec::new();
    let mut i: usize = 0;
    while i < a.len()
        invariant
            i <= a.len(),
            r@ == a@.take(i as int),
        decreases a.len() - i,
    {
        r.push(a[i]);
        i += 1;
    }
    r
}

fn name_of(e: &NameEntry) -> (r: Option<String>)
    ensures
        match r {
            Some(s) => entry_name(*e) == Some(s@),
            None => entry_name(*e) is None,
        },
{
    match e {
        NameEntry::Name(bytes) => text_from_utf8(bytes.as_slice()),
        _ => None,
    }
}

/// Tests whether the object is an image; see [`is_image_object`].
pub fn is_image(x: &XObjectInfo) -> (r: bool)
    ensures
        r == is_image_object(*x),
{
    match &x.subtype {
        NameEntry::Absent => true,
        other => match name_of(other) {
            Some(s) => same_str(s.as_str(), "Image"),
            None => false,
        },
    }
}

/// The message of the error for an image whose data cannot be had.
pub const UNDECODABLE_IMAGE: &'static str = "Image data cannot be decompressed";

/// The message of the error for an object that is no image.
pub const NOT_AN_IMAGE: &'static str = "Not an image XObject";

/// Makes the image resource of an image object; see [`is_resource_of`].
///
/// Fails with `ImageExtract` where the object has a subtype other than
/// `Image`, and where its data is to be decompressed and that did not work.
pub fn extract_xobject(x: &XObjectInfo) -> (r: Result<Resource, Error>)
    ensures
        match r {
            Ok(res) => is_image_object(*x) && is_decodable(*x) && is_resource_of(res, *x),
            Err(Error::ImageExtract(m)) => if is_image_object(*x) {
                !is_decodable(*x) && m@ == UNDECODABLE_IMAGE@
            } else {
                m@ == NOT_AN_IMAGE@
            },
            Err(_) => false,
        },
{
    if !is_image(x) {
        return Err(Error::ImageExtract(NOT_AN_IMAGE.to_owned()));
    }
    let filter = match name_of(&x.filter) {
        Some(s) => s,
        None => String::new(),
    };
    let f = filter.as_str();
    proof {
        reveal_strlit("DCTDecode");
        reveal_strlit("FlateDecode");
        reveal_strlit("LZWDecode");
        reveal_strlit("JPXDecode");
        assert("DCTDecode"@[0] != "LZWDecode"@[0]);
        assert("JPXDecode"@[0] != "LZWDecode"@[0]);
    }
    let (mime, data): (&str, Vec<u8>) = if same_str(f, "DCTDecode") {
        ("image/jpeg", copy_bytes(&x.content))
    } else if same_str(f, "FlateDecode") || same_str(f, "LZWDecode") || f.unicode_len() == 0 {
        match &x.decompressed {
            Some(d) => ("application/octet-stream", copy_bytes(d)),
            None => {
                return Err(Error::ImageExtract(UNDECODABLE_IMAGE.to_owned()));
            },
        }
    } else if same_str(f, "JPXDecode") {
        ("image/jp2", copy_bytes(&x.content))
    } else {
        ("application/octet-stream", copy_bytes(&x.content))
    };
    let mut resource = Resource::new(data, mime, ResourceType::Image);
    match (x.width, x.height) {
        (Some(w), Some(h)) => {
            resource = resource.with_dimensions(
                #[verifier::truncate]
                (w as u32),
                #[verifier::truncate]
                (h as u32),
            );
        },
        _ => {},
    }
    match x.bits_per_component {
        Some(b) => {
            resource = resource.with_bits_per_component(
                #[verifier::truncate]
                (b as u8),
            );
        },
        None => {},
    }
    let color_space = match &x.color_space {
        ColorSpaceEntry::Name(bytes) => Some(lossy_text(bytes.as_slice())),
        ColorSpaceEntry::Array(first) => name_of(first),
        _ => None,
    };
    match color_space {
        Some(c) => {
            resource = resource.with_color_space(c.as_str());
        },
        None => {},
    }
    Ok(resource)
}

/// The number of the page with the id among the pages; of several, the
/// first.
pub open spec fn page_of(pages: Seq<(u32, PageId)>, id: PageId) -> Option<u32>
    decreases pages.len(),
{
    if pages.len() == 0 {
        None
    } else if pages[0].1 == id {
        Some(pages[0].0)
    } else {
        page_of(pages.drop_first(), id)
    }
}

/// Finds the number of the page that a destination points at.
pub fn resolve_destination(pages: &Vec<(u32, PageId)>, target: PageId) -> (r: Option<u32>)
    ensures
        r == page_of(pages@, target),
{
    let n = pages.len();
    let mut i: usize = 0;
    assert(pages@.subrange(0, n as int) == pages@);
    while i < n
        invariant
            i <= n,
            n == pages.len(),
            page_of(pages@, target) == page_of(pages@.subrange(i as int, n as int), target),
        decreases n - i,
    {
        assert(pages@.subrange(i as int, n as int)[0] == pages@[i as int]);
        let (number, id) = pages[i];
        if id.0 == target.0 && id.1 == target.1 {
            return Some(number);
        }
        assert(pages@.subrange(i as int, n as int).drop_first() == pages@.subrange(
            i + 1,
            n as int,
        ));
        i += 1;
    }
    None
}

/// A length of a media box, or the given length where the entry is no
/// number.
pub open spec fn length_or(entry: Option<i32>, fallback: i32) -> i32 {
    match entry {
        Some(v) => v,
        None => fallback,
    }
}

/// The size of the page with the number: that of the first box for it, with
/// the width or height of Letter size where the entry is no number; Letter
/// size where the container gives no box for the page.
pub open spec fn page_size(boxes: Seq<PageBox>, number: u32) -> (i32, i32)
    decreases boxes.len(),
{
    if boxes.len() == 0 {
        (612000i32, 792000i32)
    } else if boxes[0].number == number {
        (length_or(boxes[0].width, 612000), length_or(boxes[0].height, 792000))
    } else {
        page_size(boxes.drop_first(), number)
    }
}

/// Finds the size of a page; see [`page_size`].
pub fn get_page_dimensions(boxes: &Vec<PageBox>, number: u32) -> (r: (i32, i32))
    ensures
        r == page_size(boxes@, number),
{
    let n = boxes.len();
    let mut i: usize = 0;
    assert(boxes@.subrange(0, n as int) == boxes@);
    while i < n
        invariant
            i <= n,
            n == boxes.len(),
            page_size(boxes@, number) == page_size(boxes@.subrange(i as int, n as int), number),
        decreases n - i,
    {
        assert(boxes@.subrange(i as int, n as int)[0] == boxes@[i as int]);
        if boxes[i].number == number {
            let width: i32 = match boxes[i].width {
                Some(v) => v,
                None => 612000,
            };
            let height: i32 = match boxes[i].height {
                Some(v) => v,
                None => 792000,
            };
            return (width, height);
        }
        assert(boxes@.subrange(i as int, n as int).drop_first() == boxes@.subrange(
            i + 1,
            n as int,
        ));
        i += 1;
    }
    (612000, 792000)
}

} // verus!
