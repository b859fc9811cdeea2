//! Paragraphs and the inline content they hold.

use crate::text::{append_str, is_blank, is_blank_str, push_char};
use vstd::prelude::*;

verus! {

/// Horizontal alignment of text.
#[derive(Debug, Clone, Copy, PartialEq, Eq, Structural)]
pub enum Alignment {
    /// Aligned left; the default.
    Left,
    /// Centred.
    Center,
    /// Aligned right.
    Right,
    /// Justified.
    Justify,
}

impl Default for Alignment {
    fn default() -> (r: Alignment)
        ensures
            r == Alignment::Left,
    {
        Alignment::Left
    }
}

/// How the items of an ordered list are numbered.
#[derive(Debug, Clone, Copy, PartialEq, Eq, Structural)]
pub enum NumberStyle {
    /// 1, 2, 3; the default.
    Decimal,
    /// a, b, c.
    LowerAlpha,
    /// A, B, C.
    UpperAlpha,
    /// i, ii, iii.
    LowerRoman,
    /// I, II, III.
    UpperRoman,
}

impl Default for NumberStyle {
    fn default() -> (r: NumberStyle)
        ensures
            r == NumberStyle::Decimal,
    {
        NumberStyle::Decimal
    }
}

/// The style of a list.
#[derive(Debug, Clone, Copy, PartialEq, Eq, Structural)]
pub enum ListStyle {
    /// A numbered list.
    Ordered {
        /// The number of the first item.
        start: u32,
        /// How items are numbered.
        number_style: NumberStyle,
    },
    /// A bulleted list.
    Unordered {
        /// The bullet character.
        marker: char,
    },
}

/// What makes a paragraph an item of a list.
#[derive(Debug, Clone, Copy, PartialEq, Eq, Structural)]
pub struct ListInfo {
    /// The style of the list.
    pub style: ListStyle,
    /// Nesting level, 0 at the top.
    pub level: u8,
    /// The number of the item in an ordered list.
    pub item_number: Option<u32>,
}

impl ListInfo {
    /// An item of a bulleted list, with the bullet `•`.
    pub fn bullet(level: u8) -> (r: ListInfo)
        ensures
            r == (ListInfo {
                style: ListStyle::Unordered { marker: '\u{2022}' },
                level,
                item_number: None,
            }),
    {
        ListInfo { style: ListStyle::Unordered { marker: '\u{2022}' }, level, item_number: None }
    }

    /// An item of a decimal list that starts at 1.
    pub fn numbered(level: u8, number: u32) -> (r: ListInfo)
        ensures
            r == (ListInfo {
                style: ListStyle::Ordered { start: 1, number_style: NumberStyle::Decimal },
                level,
                item_number: Some(number),
            }),
    {
        ListInfo {
            style: ListStyle::Ordered { start: 1, number_style: NumberStyle::Decimal },
            level,
            item_number: Some(number),
        }
    }
}

/// The style of a run of text. Font sizes are in thousandths of a point.
#[derive(Debug, Clone)]
pub struct TextStyle {
    pub bold: bool,
    pub italic: bool,
    pub underline: bool,
    pub strikethrough: bool,
    pub superscript: bool,
    pub subscript: bool,
    /// Font name.
    pub font_name: Option<String>,
    /// Font size.
    pub font_size: Option<i32>,
    /// Text colour, as `#RRGGBB`.
    pub color: Option<String>,
    /// Background colour.
    pub background_color: Option<String>,
}

/// The style has no flag set and names no font, size or colour.
pub open spec fn is_plain_style(s: TextStyle) -> bool {
    !s.bold && !s.italic && !s.underline && !s.strikethrough && !s.superscript && !s.subscript
        && s.font_name is None && s.font_size is None && s.color is None && s.background_color
        is None
}

impl Default for TextStyle {
    fn default() -> (r: TextStyle)
        ensures
            is_plain_style(r),
    {
        TextStyle {
            bold: false,
            italic: false,
            underline: false,
            strikethrough: false,
            superscript: false,
            subscript: false,
            font_name: None,
            font_size: None,
            color: None,
            background_color: None,
        }
    }
}

impl TextStyle {
    /// Tests whether any of the six style flags is set.
    pub fn has_styling(&self) -> (r: bool)
        ensures
            r == (self.bold || self.italic || self.underline || self.strikethrough
                || self.superscript || self.subscript),
    {
        self.bold || self.italic || self.underline || self.strikethrough || self.superscript
            || self.subscript
    }
}

/// A run of text in one style.
#[derive(Debug, Clone)]
pub struct TextRun {
    /// The text.
    pub text: String,
    /// Its style.
    pub style: TextStyle,
}

impl TextRun {
    /// A run in the plain style.
    pub fn new(text: &str) -> (r: TextRun)
        ensures
            r.text@ == text@,
            is_plain_style(r.style),
    {
        TextRun { text: text.to_owned(), style: TextStyle::default() }
    }

    /// A bold run.
    pub fn bold(text: &str) -> (r: TextRun)
        ensures
            r.text@ == text@,
            r.style.bold,
            is_plain_style(TextStyle { bold: false, ..r.style }),
    {
        let mut style = TextStyle::default();
        style.bold = true;
        TextRun { text: text.to_owned(), style }
    }

    /// An italic run.
    pub fn italic(text: &str) -> (r: TextRun)
        ensures
            r.text@ == text@,
            r.style.italic,
            is_plain_style(TextStyle { italic: false, ..r.style }),
    {
        let mut style = TextStyle::default();
        style.italic = true;
        TextRun { text: text.to_owned(), style }
    }

    /// Tests whether the run has no text.
    pub fn is_empty(&self) -> (r: bool)
        ensures
            r == (self.text@.len() == 0),
    {
        self.text.as_str().unicode_len() == 0
    }
}

/// A piece of the content of a paragraph.
#[derive(Debug, Clone)]
pub enum InlineContent {
    /// A run of text.
    Text(TextRun),
    /// A line break.
    LineBreak,
    /// A hyperlink.
    Link {
        /// The text shown.
        text: String,
        /// Where the link leads.
        url: String,
        /// A title for the link.
        title: Option<String>,
    },
    /// An image in the line.
    Image {
        /// The id of the image resource.
        resource_id: String,
        /// Text that stands for the image.
        alt_text: Option<String>,
    },
}

/// The style of a paragraph. Lengths are in thousandths of a point, the line
/// spacing in thousandths of a line.
#[derive(Debug, Clone)]
pub struct ParagraphStyle {
    /// Heading level 1 to 6; none for body text.
    pub heading_level: Option<u8>,
    /// Alignment.
    pub alignment: Alignment,
    /// Indentation level.
    pub indent_level: u8,
    /// Set where the paragraph is an item of a list.
    pub list_info: Option<ListInfo>,
    /// Line spacing as a multiple of single spacing.
    pub line_spacing: Option<i32>,
    /// Space before the paragraph.
    pub space_before: Option<i32>,
    /// Space after the paragraph.
    pub space_after: Option<i32>,
    /// Indent of the first line.
    pub first_line_indent: Option<i32>,
}

/// The style of a plain paragraph of body text.
pub open spec fn is_body_style(s: ParagraphStyle) -> bool {
    s.heading_level is None && s.alignment == Alignment::Left && s.indent_level == 0
        && s.list_info is None && s.line_spacing is None && s.space_before is None
        && s.space_after is None && s.first_line_indent is None
}

impl Default for ParagraphStyle {
    fn default() -> (r: ParagraphStyle)
        ensures
            is_body_style(r),
    {
        ParagraphStyle {
            heading_level: None,
            alignment: Alignment::Left,
            indent_level: 0,
            list_info: None,
            line_spacing: None,
            space_before: None,
            space_after: None,
            first_line_indent: None,
        }
    }
}

/// A paragraph: inline content and a style.
#[derive(Debug, Clone)]
pub struct Paragraph {
    /// The content, in order.
    pub content: Vec<InlineContent>,
    /// The style.
    pub style: ParagraphStyle,
}

/// The plain text of one piece of inline content: the text of a run or a
/// link, a newline for a line break, the alternative text of an image.
pub open spec fn inline_text(c: InlineContent) -> Seq<char> {
    match c {
        InlineContent::Text(run) => run.text@,
        InlineContent::LineBreak => seq!['\n'],
        InlineContent::Link { text, .. } => text@,
        InlineContent::Image { alt_text, .. } => match alt_text {
            Some(t) => t@,
            None => Seq::empty(),
        },
    }
}

/// The plain text of inline content, piece after piece.
pub open spec fn content_text(content: Seq<InlineContent>) -> Seq<char>
    decreases content.len(),
{
    if content.len() == 0 {
        Seq::empty()
    } else {
        content_text(content.drop_last()) + inline_text(content.last())
    }
}

/// The content is a single run of `text` in the plain style.
pub open spec fn is_plain_text(content: Seq<InlineContent>, text: Seq<char>) -> bool {
    content.len() == 1 && (content[0] matches InlineContent::Text(run) && run.text@ == text
        && is_plain_style(run.style))
}

/// A heading level, brought into the range 1 to 6.
pub open spec fn clamp_level(level: u8) -> u8 {
    if level < 1 {
        1
    } else if level > 6 {
        6
    } else {
        level
    }
}

impl Paragraph {
    /// An empty paragraph of body text.
    pub fn new() -> (r: Paragraph)
        ensures
            r.content@.len() == 0,
            is_body_style(r.style),
    {
        Paragraph { content: Vec::new(), style: ParagraphStyle::default() }
    }

    /// A paragraph of body text with one plain run.
    pub fn with_text(text: &str) -> (r: Paragraph)
        ensures
            is_plain_text(r.content@, text@),
            is_body_style(r.style),
    {
        let mut p = Paragraph::new();
        p.add_text(text);
        p
    }

    /// A heading with one plain run; the level is brought into 1 to 6.
    pub fn heading(text: &str, level: u8) -> (r: Paragraph)
        ensures
            is_plain_text(r.content@, text@),
            r.style.heading_level == Some(clamp_level(level)),
            is_body_style(ParagraphStyle { heading_level: None, ..r.style }),
    {
        let mut p = Paragraph::with_text(text);
        let level: u8 = if level < 1 {
            1
        } else if level > 6 {
            6
        } else {
            level
        };
        p.style.heading_level = Some(level);
        p
    }

    /// Appends a plain run.
    pub fn add_text(&mut self, text: &str)
        ensures
            final(self).content@.len() == old(self).content@.len() + 1,
            final(self).content@.drop_last() == old(self).content@,
            is_plain_text(seq![final(self).content@.last()], text@),
            final(self).style == old(self).style,
    {
        let run = TextRun::new(text);
        self.content.push(InlineContent::Text(run));
    }

    /// Appends a run.
    pub fn add_run(&mut self, run: TextRun)
        ensures
            final(self).content@ == old(self).content@.push(InlineContent::Text(run)),
            final(self).style == old(self).style,
    {
        self.content.push(InlineContent::Text(run));
    }

    /// Appends a line break.
    pub fn add_line_break(&mut self)
        ensures
            final(self).content@ == old(self).content@.push(InlineContent::LineBreak),
            final(self).style == old(self).style,
    {
        self.content.push(InlineContent::LineBreak);
    }

    /// The plain text of the paragraph; see [`content_text`].
    pub fn plain_text(&self) -> (r: String)
        ensures
            r@ == content_text(self.content@),
    {
        let mut out = String::new();
        let mut i: usize = 0;
        while i < self.content.len()
            invariant
                i <= self.content.len(),
                out@ == content_text(self.content@.take(i as int)),
            decreases self.content.len() - i,
        {
            assert(self.content@.take(i + 1).drop_last() == self.content@.take(i as int));
            match &self.content[i] {
                InlineContent::Text(run) => {
                    append_str(&mut out, run.text.as_str());
                },
                InlineContent::LineBreak => {
                    push_char(&mut out, '\n');
                },
                InlineContent::Link { text, .. } => {
                    append_str(&mut out, text.as_str());
                },
                InlineContent::Image { alt_text, .. } => {
                    match alt_text {
                        Some(t) => {
                            append_str(&mut out, t.as_str());
                        },
                        None => {},
                    }
                },
            }
            i += 1;
        }
        assert(self.content@.take(self.content.len() as int) == self.content@);
        out
    }

    /// Tests whether the paragraph's plain text is blank.
    pub fn is_empty(&self) -> (r: bool)
        ensures
            r == is_blank(content_text(self.content@)),
    {
        let t = self.plain_text();
        is_blank_str(t.as_str())
    }

    /// Tests whether the paragraph is a heading.
    pub fn is_heading(&self) -> (r: bool)
        ensures
            r == self.style.heading_level is Some,
    {
        self.style.heading_level.is_some()
    }

    /// The heading level, if the paragraph is a heading.
    pub fn heading_level(&self) -> (r: Option<u8>)
        ensures
            r == self.style.heading_level,
    {
        self.style.heading_level
    }

    /// Tests whether the paragraph is an item of a list.
    pub fn is_list_item(&self) -> (r: bool)
        ensures
            r == self.style.list_info is Some,
    {
        self.style.list_info.is_some()
    }
}

impl Default for Paragraph {
    fn default() -> (r: Paragraph)
        ensures
            r.content@.len() == 0,
            is_body_style(r.style),
    {
        Paragraph::new()
    }
}

} // verus!
