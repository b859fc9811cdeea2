//! What a render gives back: the content, the metadata and statistics.

use crate::model::document::{is_bare_metadata, Metadata};
use crate::text::{is_whitespace, is_whitespace_char, to_chars};
use vstd::prelude::*;

verus! {

/// Counts collected while a document is rendered.
#[derive(Debug, Clone, Copy, PartialEq, Eq, Structural)]
pub struct ExtractionStats {
    pub page_count: u32,
    pub paragraph_count: u32,
    pub table_count: u32,
    pub image_count: u32,
    pub list_item_count: u32,
    /// Words: runs of characters between whitespace.
    pub word_count: u32,
    /// Characters that are not whitespace.
    pub char_count: u32,
    pub heading_count: u32,
    pub horizontal_rule_count: u32,
}

/// All counts at zero.
pub open spec fn no_stats() -> ExtractionStats {
    ExtractionStats {
        page_count: 0,
        paragraph_count: 0,
        table_count: 0,
        image_count: 0,
        list_item_count: 0,
        word_count: 0,
        char_count: 0,
        heading_count: 0,
        horizontal_rule_count: 0,
    }
}

/// The sum of a count and an increase, as far as 32 bits can count.
pub open spec fn counted(count: u32, more: int) -> u32 {
    if count + more > u32::MAX {
        u32::MAX
    } else {
        (count + more) as u32
    }
}

/// The number of words in a text: of runs of characters that are not
/// whitespace.
pub open spec fn words_in(text: Seq<char>) -> int
    decreases text.len(),
{
    if text.len() == 0 {
        0
    } else {
        words_in(text.drop_last()) + if !is_whitespace(text.last()) && (text.len() == 1
            || is_whitespace(text[text.len() - 2])) {
            1int
        } else {
            0int
        }
    }
}

/// The number of characters of a text that are not whitespace.
pub open spec fn inked_chars(text: Seq<char>) -> int
    decreases text.len(),
{
    if text.len() == 0 {
        0
    } else {
        inked_chars(text.drop_last()) + if is_whitespace(text.last()) {
            0int
        } else {
            1int
        }
    }
}

impl Default for ExtractionStats {
    fn default() -> (r: ExtractionStats)
        ensures
            r == no_stats(),
    {
        ExtractionStats {
            page_count: 0,
            paragraph_count: 0,
            table_count: 0,
            image_count: 0,
            list_item_count: 0,
            word_count: 0,
            char_count: 0,
            heading_count: 0,
            horizontal_rule_count: 0,
        }
    }
}

fn narrowed(n: usize) -> (r: u32)
    ensures
        r == counted(0, n as int),
{
    if n > u32::MAX as usize {
        u32::MAX
    } else {
        n as u32
    }
}

impl ExtractionStats {
    /// All counts at zero.
    pub fn new() -> (r: ExtractionStats)
        ensures
            r == no_stats(),
    {
        ExtractionStats::default()
    }

    /// Counts a paragraph.
    pub fn add_paragraph(&mut self)
        ensures
            *final(self) == (ExtractionStats {
                paragraph_count: counted(old(self).paragraph_count, 1),
                ..*old(self)
            }),
    {
        self.paragraph_count = self.paragraph_count.saturating_add(1);
    }

    /// Counts a table.
    pub fn add_table(&mut self)
        ensures
            *final(self) == (ExtractionStats {
                table_count: counted(old(self).table_count, 1),
                ..*old(self)
            }),
    {
        self.table_count = self.table_count.saturating_add(1);
    }

    /// Counts an image.
    pub fn add_image(&mut self)
        ensures
            *final(self) == (ExtractionStats {
                image_count: counted(old(self).image_count, 1),
                ..*old(self)
            }),
    {
        self.image_count = self.image_count.saturating_add(1);
    }

    /// Counts a list item.
    pub fn add_list_item(&mut self)
        ensures
            *final(self) == (ExtractionStats {
                list_item_count: counted(old(self).list_item_count, 1),
                ..*old(self)
            }),
    {
        self.list_item_count = self.list_item_count.saturating_add(1);
    }

    /// Counts a heading.
    pub fn add_heading(&mut self)
        ensures
            *final(self) == (ExtractionStats {
                heading_count: counted(old(self).heading_count, 1),
                ..*old(self)
            }),
    {
        self.heading_count = self.heading_count.saturating_add(1);
    }

    /// Counts a horizontal rule.
    pub fn add_horizontal_rule(&mut self)
        ensures
            *final(self) == (ExtractionStats {
                horizontal_rule_count: counted(old(self).horizontal_rule_count, 1),
                ..*old(self)
            }),
    {
        self.horizontal_rule_count = self.horizontal_rule_count.saturating_add(1);
    }

    /// Counts a page.
    pub fn add_page(&mut self)
        ensures
            *final(self) == (ExtractionStats {
                page_count: counted(old(self).page_count, 1),
                ..*old(self)
            }),
    {
        self.page_count = self.page_count.saturating_add(1);
    }

    /// Counts the words and the characters of a text; whitespace separates
    /// words and is no character.
    pub fn count_text(&mut self, text: &str)
        ensures
            *final(self) == (ExtractionStats {
                word_count: counted(old(self).word_count, counted(0, words_in(text@)) as int),
                char_count: counted(old(self).char_count, counted(0, inked_chars(text@)) as int),
                ..*old(self)
            }),
    {
        let t = to_chars(text);
        let mut words: usize = 0;
        let mut chars: usize = 0;
        let mut after_space = true;
        let mut i: usize = 0;
        while i < t.len()
            invariant
                i <= t.len(),
                words == words_in(t@.take(i as int)),
                chars == inked_chars(t@.take(i as int)),
                words <= i,
                chars <= i,
                after_space == (i == 0 || is_whitespace(t@[i - 1])),
            decreases t.len() - i,
        {
            assert(t@.take(i + 1).drop_last() == t@.take(i as int));
            if is_whitespace_char(t[i]) {
                after_space = true;
            } else {
                if after_space {
                    words += 1;
                }
                chars += 1;
                after_space = false;
            }
            i += 1;
        }
        assert(t@.take(t.len() as int) == t@);
        self.word_count = self.word_count.saturating_add(narrowed(words));
        self.char_count = self.char_count.saturating_add(narrowed(chars));
    }

    /// Adds the counts of `other` to these.
    pub fn merge(&mut self, other: &ExtractionStats)
        ensures
            *final(self) == (ExtractionStats {
                page_count: counted(old(self).page_count, other.page_count as int),
                paragraph_count: counted(old(self).paragraph_count, other.paragraph_count as int),
                table_count: counted(old(self).table_count, other.table_count as int),
                image_count: counted(old(self).image_count, other.image_count as int),
                list_item_count: counted(old(self).list_item_count, other.list_item_count as int),
                word_count: counted(old(self).word_count, other.word_count as int),
                char_count: counted(old(self).char_count, other.char_count as int),
                heading_count: counted(old(self).heading_count, other.heading_count as int),
                horizontal_rule_count: counted(
                    old(self).horizontal_rule_count,
                    other.horizontal_rule_count as int,
                ),
            }),
    {
        self.page_count = self.page_count.saturating_add(other.page_count);
        self.paragraph_count = self.paragraph_count.saturating_add(other.paragraph_count);
        self.table_count = self.table_count.saturating_add(other.table_count);
        self.image_count = self.image_count.saturating_add(other.image_count);
        self.list_item_count = self.list_item_count.saturating_add(other.list_item_count);
        self.word_count = self.word_count.saturating_add(other.word_count);
        self.char_count = self.char_count.saturating_add(other.char_count);
        self.heading_count = self.heading_count.saturating_add(other.heading_count);
        self.horizontal_rule_count = self.horizontal_rule_count.saturating_add(
            other.horizontal_rule_count,
        );
    }
}

/// What a render gives back.
#[derive(Debug, Clone)]
pub struct RenderResult {
    /// The rendered content.
    pub content: String,
    /// The metadata of the document.
    pub metadata: Metadata,
    /// The statistics.
    pub stats: ExtractionStats,
}

impl RenderResult {
    /// A result of the given parts.
    pub fn new(content: String, metadata: Metadata, stats: ExtractionStats) -> (r: RenderResult)
        ensures
            r.content == content,
            r.metadata == metadata,
            r.stats == stats,
    {
        RenderResult { content, metadata, stats }
    }

    /// A result with content only: bare metadata and no counts.
    pub fn content_only(content: String) -> (r: RenderResult)
        ensures
            r.content == content,
            is_bare_metadata(r.metadata),
            r.stats == no_stats(),
    {
        RenderResult { content, metadata: Metadata::default(), stats: ExtractionStats::default() }
    }

    /// The length of the content in bytes of UTF-8.
    pub fn content_len(&self) -> (r: usize)
        ensures
            r == vstd::utf8::encode_utf8(self.content@).len(),
    {
        self.content.as_str().as_bytes().len()
    }
}

} // verus!
