//! Pages and the blocks on them.

use crate::model::paragraph::{content_text, Paragraph};
use crate::model::table::{rows_text, Table};
use crate::text::append_str;
use vstd::prelude::*;

verus! {

/// A block of content on a page. Lengths are in thousandths of a point.
#[derive(Debug, Clone)]
pub enum Block {
    /// A paragraph.
    Paragraph(Paragraph),
    /// A table.
    Table(Table),
    /// A reference to an image resource.
    Image {
        /// The id of the image resource.
        resource_id: String,
        /// Text that stands for the image.
        alt_text: Option<String>,
        /// Width on the page.
        width: Option<i32>,
        /// Height on the page.
        height: Option<i32>,
        /// Horizontal position.
        x: Option<i32>,
        /// Vertical position.
        y: Option<i32>,
    },
    /// A horizontal rule.
    HorizontalRule,
    /// A page break.
    PageBreak,
    /// A section break.
    SectionBreak,
    /// Unstructured content.
    Raw {
        /// The text.
        content: String,
    },
}

impl Block {
    /// An image block without alternative text, size or position.
    pub fn image(resource_id: &str) -> (r: Block)
        ensures
            r matches Block::Image { resource_id: id, alt_text, width, height, x, y } && id@
                == resource_id@ && alt_text is None && width is None && height is None && x
                is None && y is None,
    {
        Block::Image {
            resource_id: resource_id.to_owned(),
            alt_text: None,
            width: None,
            height: None,
            x: None,
            y: None,
        }
    }

    /// An image block with a size.
    pub fn image_with_size(resource_id: &str, width: i32, height: i32) -> (r: Block)
        ensures
            r matches Block::Image { resource_id: id, alt_text, width: w, height: h, x, y } && id@
                == resource_id@ && alt_text is None && w == Some(width) && h == Some(height) && x
                is None && y is None,
    {
        Block::Image {
            resource_id: resource_id.to_owned(),
            alt_text: None,
            width: Some(width),
            height: Some(height),
            x: None,
            y: None,
        }
    }

    /// Tests whether the block is a paragraph.
    pub fn is_paragraph(&self) -> (r: bool)
        ensures
            r == (*self is Paragraph),
    {
        match self {
            Block::Paragraph(_) => true,
            _ => false,
        }
    }

    /// Tests whether the block is a table.
    pub fn is_table(&self) -> (r: bool)
        ensures
            r == (*self is Table),
    {
        match self {
            Block::Table(_) => true,
            _ => false,
        }
    }

    /// Tests whether the block is an image.
    pub fn is_image(&self) -> (r: bool)
        ensures
            r == (*self is Image),
    {
        match self {
            Block::Image { .. } => true,
            _ => false,
        }
    }
}

/// A page of the document. Lengths are in thousandths of a point.
#[derive(Debug, Clone)]
pub struct Page {
    /// The page number, from 1.
    pub number: u32,
    /// Width.
    pub width: i32,
    /// Height.
    pub height: i32,
    /// The blocks, in reading order.
    pub elements: Vec<Block>,
    /// Rotation in degrees: 0, 90, 180 or 270.
    pub rotation: u16,
}

/// The plain text of a block that has one: a paragraph or a table.
pub open spec fn block_plain_text(b: Block) -> Option<Seq<char>> {
    match b {
        Block::Paragraph(p) => Some(content_text(p.content@)),
        Block::Table(t) => Some(rows_text(t.rows@)),
        _ => None,
    }
}

/// The plain texts of the paragraphs and tables among the blocks.
pub open spec fn block_texts(blocks: Seq<Block>) -> Seq<Seq<char>>
    decreases blocks.len(),
{
    if blocks.len() == 0 {
        Seq::empty()
    } else {
        match block_plain_text(blocks.last()) {
            Some(t) => block_texts(blocks.drop_last()).push(t),
            None => block_texts(blocks.drop_last()),
        }
    }
}

/// The texts, joined by blank lines.
pub open spec fn joined_by_blank_lines(texts: Seq<Seq<char>>) -> Seq<char>
    decreases texts.len(),
{
    if texts.len() == 0 {
        Seq::empty()
    } else if texts.len() == 1 {
        texts[0]
    } else {
        joined_by_blank_lines(texts.drop_last()) + seq!['\n', '\n'] + texts.last()
    }
}

/// The plain text of a page: that of its paragraphs and tables, joined by
/// blank lines.
pub open spec fn page_text(blocks: Seq<Block>) -> Seq<char> {
    joined_by_blank_lines(block_texts(blocks))
}

/// Appends `text` to `out`, after a blank line unless it is the first text.
pub fn append_separated(out: &mut String, text: &str, first: bool)
    ensures
        final(out)@ == if first {
            old(out)@ + text@
        } else {
            old(out)@ + seq!['\n', '\n'] + text@
        },
{
    if !first {
        crate::text::push_char(out, '\n');
        crate::text::push_char(out, '\n');
        assert(out@ =~= old(out)@ + seq!['\n', '\n']);
    }
    append_str(out, text);
}

impl Page {
    /// An empty page of the given size.
    pub fn new(number: u32, width: i32, height: i32) -> (r: Page)
        ensures
            r.number == number,
            r.width == width,
            r.height == height,
            r.elements@.len() == 0,
            r.rotation == 0,
    {
        Page { number, width, height, elements: Vec::new(), rotation: 0 }
    }

    /// An empty page of Letter size, 612 by 792 points.
    pub fn letter(number: u32) -> (r: Page)
        ensures
            r.number == number,
            r.width == 612000,
            r.height == 792000,
            r.elements@.len() == 0,
            r.rotation == 0,
    {
        Page::new(number, 612000, 792000)
    }

    /// An empty page of A4 size, 595 by 842 points.
    pub fn a4(number: u32) -> (r: Page)
        ensures
            r.number == number,
            r.width == 595000,
            r.height == 842000,
            r.elements@.len() == 0,
            r.rotation == 0,
    {
        Page::new(number, 595000, 842000)
    }

    /// Appends a block.
    pub fn add_block(&mut self, block: Block)
        ensures
            final(self).elements@ == old(self).elements@.push(block),
            final(self).number == old(self).number,
            final(self).width == old(self).width,
            final(self).height == old(self).height,
            final(self).rotation == old(self).rotation,
    {
        self.elements.push(block);
    }

    /// Appends a paragraph.
    pub fn add_paragraph(&mut self, paragraph: Paragraph)
        ensures
            final(self).elements@ == old(self).elements@.push(Block::Paragraph(paragraph)),
            final(self).number == old(self).number,
            final(self).width == old(self).width,
            final(self).height == old(self).height,
            final(self).rotation == old(self).rotation,
    {
        self.elements.push(Block::Paragraph(paragraph));
    }

    /// Appends a table.
    pub fn add_table(&mut self, table: Table)
        ensures
            final(self).elements@ == old(self).elements@.push(Block::Table(table)),
            final(self).number == old(self).number,
            final(self).width == old(self).width,
            final(self).height == old(self).height,
            final(self).rotation == old(self).rotation,
    {
        self.elements.push(Block::Table(table));
    }

    /// The plain text of the page; see [`page_text`].
    pub fn plain_text(&self) -> (r: String)
        ensures
            r@ == page_text(self.elements@),
    {
        let mut out = String::new();
        let mut seen: usize = 0;
        let mut i: usize = 0;
        while i < self.elements.len()
            invariant
                i <= self.elements.len(),
                seen == block_texts(self.elements@.take(i as int)).len(),
                seen <= i,
                out@ == page_text(self.elements@.take(i as int)),
            decreases self.elements.len() - i,
        {
            assert(self.elements@.take(i + 1).drop_last() == self.elements@.take(i as int));
            let ghost texts = block_texts(self.elements@.take(i as int));
            match &self.elements[i] {
                Block::Paragraph(p) => {
                    let t = p.plain_text();
                    append_separated(&mut out, t.as_str(), seen == 0);
                    assert(texts.push(t@).drop_last() == texts);
                    seen += 1;
                },
                Block::Table(tb) => {
                    let t = tb.plain_text();
                    append_separated(&mut out, t.as_str(), seen == 0);
                    assert(texts.push(t@).drop_last() == texts);
                    seen += 1;
                },
                _ => {},
            }
            i += 1;
        }
        assert(self.elements@.take(self.elements.len() as int) == self.elements@);
        out
    }

    /// Tests whether the page has no block.
    pub fn is_empty(&self) -> (r: bool)
        ensures
            r == (self.elements@.len() == 0),
    {
        self.elements.len() == 0
    }

    /// The number of blocks.
    pub fn block_count(&self) -> (r: usize)
        ensures
            r == self.elements@.len(),
    {
        self.elements.len()
    }

    /// Width and height.
    pub fn dimensions(&self) -> (r: (i32, i32))
        ensures
            r == (self.width, self.height),
    {
        (self.width, self.height)
    }

    /// Tests whether the page is wider than high.
    pub fn is_landscape(&self) -> (r: bool)
        ensures
            r == (self.width > self.height),
    {
        self.width > self.height
    }
}

impl Default for Page {
    fn default() -> (r: Page)
        ensures
            r.number == 1,
            r.width == 612000,
            r.height == 792000,
            r.elements@.len() == 0,
    {
        Page::letter(1)
    }
}

} // verus!
