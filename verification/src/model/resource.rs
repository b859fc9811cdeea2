//! Resources embedded in a document: images, fonts, attachments.

use crate::text::{append_str, push_char, same_str};
use vstd::prelude::*;

verus! {

/// What kind of resource it is.
#[derive(Debug, Clone, Copy, PartialEq, Eq, Structural)]
pub enum ResourceType {
    /// An image.
    Image,
    /// A font.
    Font,
    /// An attached file.
    Attachment,
    /// Anything else.
    Other,
}

impl ResourceType {
    /// The lowercase name of the type.
    pub fn to_string(&self) -> (r: String)
        ensures
            r@ == match *self {
                ResourceType::Image => "image"@,
                ResourceType::Font => "font"@,
                ResourceType::Attachment => "attachment"@,
                ResourceType::Other => "other"@,
            },
    {
        match self {
            ResourceType::Image => "image".to_owned(),
            ResourceType::Font => "font".to_owned(),
            ResourceType::Attachment => "attachment".to_owned(),
            ResourceType::Other => "other".to_owned(),
        }
    }
}

/// An embedded resource.
#[derive(Debug, Clone)]
pub struct Resource {
    /// The raw bytes.
    pub data: Vec<u8>,
    /// The MIME type, such as `image/jpeg`.
    pub mime_type: String,
    /// The kind of resource.
    pub resource_type: ResourceType,
    /// The file name that the resource had, where known.
    pub filename: Option<String>,
    /// Width in pixels, for images.
    pub width: Option<u32>,
    /// Height in pixels, for images.
    pub height: Option<u32>,
    /// Colour space, such as `RGB`.
    pub color_space: Option<String>,
    /// Bits per colour component.
    pub bits_per_component: Option<u8>,
}

/// `data` starts with the bytes of `magic`.
pub open spec fn starts_with(data: Seq<u8>, magic: Seq<u8>) -> bool {
    data.len() >= magic.len() && data.subrange(0, magic.len() as int) == magic
}

/// The MIME type that the first bytes of the data give away.
pub open spec fn sniffed_mime(data: Seq<u8>) -> Option<Seq<char>> {
    if data.len() < 8 {
        None
    } else if starts_with(data, seq![0xFFu8, 0xD8, 0xFF]) {
        Some("image/jpeg"@)
    } else if starts_with(data, seq![0x89u8, 0x50, 0x4E, 0x47, 0x0D, 0x0A, 0x1A, 0x0A]) {
        Some("image/png"@)
    } else if starts_with(data, seq![0x47u8, 0x49, 0x46, 0x38, 0x37, 0x61]) || starts_with(
        data,
        seq![0x47u8, 0x49, 0x46, 0x38, 0x39, 0x61],
    ) {
        Some("image/gif"@)
    } else if starts_with(data, seq![0x49u8, 0x49, 0x2A, 0x00]) || starts_with(
        data,
        seq![0x4Du8, 0x4D, 0x00, 0x2A],
    ) {
        Some("image/tiff"@)
    } else if starts_with(data, seq![0x42u8, 0x4D]) {
        Some("image/bmp"@)
    } else if data.len() >= 12 && starts_with(data, seq![0x52u8, 0x49, 0x46, 0x46])
        && data.subrange(8, 12) == seq![0x57u8, 0x45, 0x42, 0x50] {
        Some("image/webp"@)
    } else if starts_with(data, seq![0x00u8, 0x00, 0x00, 0x0C, 0x6A, 0x50, 0x20, 0x20]) {
        Some("image/jp2"@)
    } else {
        None
    }
}

/// The file extension for a MIME type; for a type that is not known, `raw`
/// for an image and `bin` for anything else.
pub open spec fn extension_of(mime: Seq<char>, is_image: bool) -> Seq<char> {
    if mime == "image/jpeg"@ {
        "jpg"@
    } else if mime == "image/png"@ {
        "png"@
    } else if mime == "image/gif"@ {
        "gif"@
    } else if mime == "image/tiff"@ {
        "tiff"@
    } else if mime == "image/bmp"@ {
        "bmp"@
    } else if mime == "image/webp"@ {
        "webp"@
    } else if mime == "image/jp2"@ || mime == "image/jpeg2000"@ {
        "jp2"@
    } else if mime == "application/pdf"@ {
        "pdf"@
    } else if mime == "font/ttf"@ || mime == "font/truetype"@ {
        "ttf"@
    } else if mime == "font/otf"@ || mime == "font/opentype"@ {
        "otf"@
    } else if mime == "font/woff"@ {
        "woff"@
    } else if mime == "font/woff2"@ {
        "woff2"@
    } else if is_image {
        "raw"@
    } else {
        "bin"@
    }
}

fn has_prefix(data: &[u8], at: usize, magic: &[u8]) -> (r: bool)
    requires
        at + magic@.len() <= data@.len(),
    ensures
        r == (data@.subrange(at as int, at + magic@.len()) == magic@),
{
    let n = data.len();
    let mut i: usize = 0;
    while i < magic.len()
        invariant
            i <= magic.len(),
            magic.len() == magic@.len(),
            n == data@.len(),
            at + magic@.len() <= data@.len(),
            forall|k: int| 0 <= k < i ==> data@[at + k] == magic@[k],
        decreases magic.len() - i,
    {
        if data[at + i] != magic[i] {
            assert(data@.subrange(at as int, at + magic@.len())[i as int] != magic@[i as int]);
            return false;
        }
        i += 1;
    }
    assert(data@.subrange(at as int, at + magic@.len()) =~= magic@);
    true
}

impl Resource {
    /// A resource with the given data, MIME type and kind; nothing else is
    /// known of it.
    pub fn new(data: Vec<u8>, mime_type: &str, resource_type: ResourceType) -> (r: Resource)
        ensures
            r.data == data,
            r.mime_type@ == mime_type@,
            r.resource_type == resource_type,
            r.filename is None,
            r.width is None,
            r.height is None,
            r.color_space is None,
            r.bits_per_component is None,
    {
        Resource {
            data,
            mime_type: mime_type.to_owned(),
            resource_type,
            filename: None,
            width: None,
            height: None,
            color_space: None,
            bits_per_component: None,
        }
    }

    /// An image resource.
    pub fn image(data: Vec<u8>, mime_type: &str) -> (r: Resource)
        ensures
            r.data == data,
            r.mime_type@ == mime_type@,
            r.resource_type == ResourceType::Image,
            r.filename is None,
            r.width is None,
            r.height is None,
            r.color_space is None,
            r.bits_per_component is None,
    {
        Resource::new(data, mime_type, ResourceType::Image)
    }

    /// A JPEG image.
    pub fn jpeg(data: Vec<u8>) -> (r: Resource)
        ensures
            r.data == data,
            r.mime_type@ == "image/jpeg"@,
            r.resource_type == ResourceType::Image,
            r.filename is None,
            r.width is None,
            r.height is None,
            r.color_space is None,
            r.bits_per_component is None,
    {
        Resource::image(data, "image/jpeg")
    }

    /// A PNG image.
    pub fn png(data: Vec<u8>) -> (r: Resource)
        ensures
            r.data == data,
            r.mime_type@ == "image/png"@,
            r.resource_type == ResourceType::Image,
            r.filename is None,
            r.width is None,
            r.height is None,
            r.color_space is None,
            r.bits_per_component is None,
    {
        Resource::image(data, "image/png")
    }

    /// The resource with its size in pixels set.
    pub fn with_dimensions(self, width: u32, height: u32) -> (r: Resource)
        ensures
            r == (Resource { width: Some(width), height: Some(height), ..self }),
    {
        let mut r = self;
        r.width = Some(width);
        r.height = Some(height);
        r
    }

    /// The resource with its colour space set.
    pub fn with_color_space(self, color_space: &str) -> (r: Resource)
        ensures
            r.color_space is Some,
            r.color_space->0@ == color_space@,
            (Resource { color_space: self.color_space, ..r }) == self,
    {
        let mut r = self;
        r.color_space = Some(color_space.to_owned());
        r
    }

    /// The resource with its bits per component set.
    pub fn with_bits_per_component(self, bits: u8) -> (r: Resource)
        ensures
            r == (Resource { bits_per_component: Some(bits), ..self }),
    {
        let mut r = self;
        r.bits_per_component = Some(bits);
        r
    }

    /// The resource with its file name set.
    pub fn with_filename(self, filename: &str) -> (r: Resource)
        ensures
            r.filename is Some,
            r.filename->0@ == filename@,
            (Resource { filename: self.filename, ..r }) == self,
    {
        let mut r = self;
        r.filename = Some(filename.to_owned());
        r
    }

    /// The size of the data in bytes.
    pub fn size(&self) -> (r: usize)
        ensures
            r == self.data@.len(),
    {
        self.data.len()
    }

    /// Tests whether this is an image.
    pub fn is_image(&self) -> (r: bool)
        ensures
            r == (self.resource_type == ResourceType::Image),
    {
        match self.resource_type {
            ResourceType::Image => true,
            _ => false,
        }
    }

    /// Tests whether this is a font.
    pub fn is_font(&self) -> (r: bool)
        ensures
            r == (self.resource_type == ResourceType::Font),
    {
        match self.resource_type {
            ResourceType::Font => true,
            _ => false,
        }
    }

    /// A file name for the resource: its own where it has one, else the id,
    /// a dot and the extension.
    pub fn suggested_filename(&self, id: &str) -> (r: String)
        ensures
            r@ == match self.filename {
                Some(name) => name@,
                None => id@ + seq!['.'] + extension_of(
                    self.mime_type@,
                    self.resource_type == ResourceType::Image,
                ),
            },
    {
        match &self.filename {
            Some(name) => name.clone(),
            None => {
                let mut out = String::new();
                append_str(&mut out, id);
                push_char(&mut out, '.');
                append_str(&mut out, self.extension());
                out
            },
        }
    }

    /// The file extension that goes with the MIME type; see
    /// [`extension_of`].
    pub fn extension(&self) -> (r: &'static str)
        ensures
            r@ == extension_of(self.mime_type@, self.resource_type == ResourceType::Image),
    {
        let m = self.mime_type.as_str();
        if same_str(m, "image/jpeg") {
            "jpg"
        } else if same_str(m, "image/png") {
            "png"
        } else if same_str(m, "image/gif") {
            "gif"
        } else if same_str(m, "image/tiff") {
            "tiff"
        } else if same_str(m, "image/bmp") {
            "bmp"
        } else if same_str(m, "image/webp") {
            "webp"
        } else if same_str(m, "image/jp2") || same_str(m, "image/jpeg2000") {
            "jp2"
        } else if same_str(m, "application/pdf") {
            "pdf"
        } else if same_str(m, "font/ttf") || same_str(m, "font/truetype") {
            "ttf"
        } else if same_str(m, "font/otf") || same_str(m, "font/opentype") {
            "otf"
        } else if same_str(m, "font/woff") {
            "woff"
        } else if same_str(m, "font/woff2") {
            "woff2"
        } else if self.is_image() {
            "raw"
        } else {
            "bin"
        }
    }

    /// The MIME type that the first bytes of the data give away: JPEG, PNG,
    /// GIF, TIFF, BMP, WEBP or JPEG 2000; nothing for fewer than 8 bytes or
    /// an unknown start.
    pub fn detect_mime_type(data: &[u8]) -> (r: Option<&'static str>)
        ensures
            match r {
                Some(m) => sniffed_mime(data@) == Some(m@),
                None => sniffed_mime(data@) is None,
            },
    {
        if data.len() < 8 {
            return None;
        }
        let jpeg: [u8; 3] = [0xFF, 0xD8, 0xFF];
        let png: [u8; 8] = [0x89, 0x50, 0x4E, 0x47, 0x0D, 0x0A, 0x1A, 0x0A];
        let gif87: [u8; 6] = [0x47, 0x49, 0x46, 0x38, 0x37, 0x61];
        let gif89: [u8; 6] = [0x47, 0x49, 0x46, 0x38, 0x39, 0x61];
        let tiff_le: [u8; 4] = [0x49, 0x49, 0x2A, 0x00];
        let tiff_be: [u8; 4] = [0x4D, 0x4D, 0x00, 0x2A];
        let bmp: [u8; 2] = [0x42, 0x4D];
        let riff: [u8; 4] = [0x52, 0x49, 0x46, 0x46];
        let webp: [u8; 4] = [0x57, 0x45, 0x42, 0x50];
        let jp2: [u8; 8] = [0x00, 0x00, 0x00, 0x0C, 0x6A, 0x50, 0x20, 0x20];
        assert(jpeg@ =~= seq![0xFFu8, 0xD8, 0xFF]);
        assert(png@ =~= seq![0x89u8, 0x50, 0x4E, 0x47, 0x0D, 0x0A, 0x1A, 0x0A]);
        assert(gif87@ =~= seq![0x47u8, 0x49, 0x46, 0x38, 0x37, 0x61]);
        assert(gif89@ =~= seq![0x47u8, 0x49, 0x46, 0x38, 0x39, 0x61]);
        assert(tiff_le@ =~= seq![0x49u8, 0x49, 0x2A, 0x00]);
        assert(tiff_be@ =~= seq![0x4Du8, 0x4D, 0x00, 0x2A]);
        assert(bmp@ =~= seq![0x42u8, 0x4D]);
        assert(riff@ =~= seq![0x52u8, 0x49, 0x46, 0x46]);
        assert(webp@ =~= seq![0x57u8, 0x45, 0x42, 0x50]);
        assert(jp2@ =~= seq![0x00u8, 0x00, 0x00, 0x0C, 0x6A, 0x50, 0x20, 0x20]);
        if has_prefix(data, 0, jpeg.as_slice()) {
            Some("image/jpeg")
        } else if has_prefix(data, 0, png.as_slice()) {
            Some("image/png")
        } else if has_prefix(data, 0, gif87.as_slice()) || has_prefix(data, 0, gif89.as_slice()) {
            Some("image/gif")
        } else if has_prefix(data, 0, tiff_le.as_slice()) || has_prefix(
            data,
            0,
            tiff_be.as_slice(),
        ) {
            Some("image/tiff")
        } else if has_prefix(data, 0, bmp.as_slice()) {
            Some("image/bmp")
        } else if data.len() >= 12 && has_prefix(data, 0, riff.as_slice()) && has_prefix(
            data,
            8,
            webp.as_slice(),
        ) {
            Some("image/webp")
        } else if has_prefix(data, 0, jp2.as_slice()) {
            Some("image/jp2")
        } else {
            None
        }
    }
}

} // verus!
