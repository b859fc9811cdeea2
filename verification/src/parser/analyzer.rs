//! The layout analysis of one page, from the backend's content stream to
//! blocks of lines.

use crate::error::Error;
use crate::parser::backend::{BackendFontInfo, ContentOp, PageId, PdfBackend};
use crate::parser::interpreter::{interpret, parse_content_stream, texts_fit};
use crate::parser::layout::{
    block_views, detect_headings, group_lines_into_blocks, group_spans_into_lines,
    histogram_with, key_size, larger_sizes, body_index, line_views, page_blocks, page_lines,
    size_key, span_views, with_headings, BlockView, FontStatistics, SizeCount,
    SpanView, TextBlock, TextLine, TextSpan,
};
use vstd::prelude::*;

verus! {

/// The id of the page with the number among the pages; of several, the
/// first.
pub open spec fn id_of_page(pages: Seq<(u32, PageId)>, number: u32) -> Option<PageId>
    decreases pages.len(),
{
    if pages.len() == 0 {
        None
    } else if pages[0].0 == number {
        Some(pages[0].1)
    } else {
        id_of_page(pages.drop_first(), number)
    }
}

/// The number of pages as far as 32 bits can count.
pub open spec fn counted_pages(n: nat) -> u32 {
    if n > u32::MAX {
        u32::MAX
    } else {
        n as u32
    }
}

/// The error says that no page is listed under the number, and how many
/// pages are listed.
pub open spec fn is_out_of_range(e: Error, number: u32, pages: Seq<(u32, PageId)>) -> bool {
    e matches Error::PageOutOfRange(p, total) && p == number && total == counted_pages(pages.len())
}

/// Spans are what a content stream shows: there are a font table,
/// operations, and texts for the strings that the operations show, of which
/// the spans are the interpretation.
pub open spec fn are_interpreted(spans: Seq<SpanView>) -> bool {
    exists|fonts: Seq<BackendFontInfo>, ops: Seq<ContentOp>, texts: Seq<Seq<Seq<char>>>|
        texts_fit(ops, texts) && spans == #[trigger] interpret(fonts, ops, texts)
}

/// Reads the spans of the page with the id: has the backend give the fonts,
/// the content and its operations, and interprets the operations. A failure
/// of the backend is returned as it is.
pub fn read_page_spans<B: PdfBackend>(backend: &B, page: PageId) -> (r: Result<
    Vec<TextSpan>,
    Error,
>)
    ensures
        r matches Ok(spans) ==> are_interpreted(span_views(spans@)),
{
    let fonts = match backend.page_fonts(page) {
        Ok(f) => f,
        Err(e) => {
            return Err(e);
        },
    };
    let content = match backend.page_content(page) {
        Ok(c) => c,
        Err(e) => {
            return Err(e);
        },
    };
    let ops = match backend.decode_content(content.as_slice()) {
        Ok(o) => o,
        Err(e) => {
            return Err(e);
        },
    };
    Ok(parse_content_stream(backend, page, &fonts, &ops))
}

/// The histogram after the font sizes of the spans are added to it.
pub open spec fn observed_onto(h: Seq<SizeCount>, spans: Seq<SpanView>) -> Seq<SizeCount>
    decreases spans.len(),
{
    if spans.len() == 0 {
        h
    } else {
        histogram_with(observed_onto(h, spans.drop_last()), size_key(spans.last().font_size) as i32)
    }
}

/// The histogram of the font sizes of the spans.
pub open spec fn observed(spans: Seq<SpanView>) -> Seq<SizeCount> {
    observed_onto(Seq::empty(), spans)
}

/// The body size that a histogram gives; 12 points for an empty one.
pub open spec fn body_of(h: Seq<SizeCount>) -> int {
    if h.len() == 0 {
        12000
    } else {
        key_size(h[body_index(h)].key as int)
    }
}

/// The heading sizes that a histogram gives.
pub open spec fn headings_of(h: Seq<SizeCount>) -> Seq<i32> {
    if h.len() == 0 {
        Seq::empty()
    } else {
        larger_sizes(h, body_of(h))
    }
}

/// The blocks of a page: its spans grouped into lines, the lines marked as
/// headings by the font statistics of the page, and grouped into blocks.
pub open spec fn blocks_of_spans(spans: Seq<SpanView>) -> Seq<BlockView> {
    let h = observed(spans);
    page_blocks(with_headings(page_lines(spans), body_of(h), headings_of(h)))
}

/// Adds the font sizes of the spans to the statistics and derives the
/// body size and the heading sizes anew.
pub fn observe_fonts(stats: &mut FontStatistics, spans: &Vec<TextSpan>)
    ensures
        final(stats).size_histogram@ == observed_onto(
            old(stats).size_histogram@,
            span_views(spans@),
        ),
        final(stats).size_histogram@.len() > 0 ==> final(stats).body_size == body_of(
            final(stats).size_histogram@,
        ) && final(stats).heading_sizes@ == headings_of(final(stats).size_histogram@),
        final(stats).size_histogram@.len() == 0 ==> final(stats).body_size == 12000
            && final(stats).heading_sizes == old(stats).heading_sizes,
{
    let ghost views = span_views(spans@);
    let ghost h = stats.size_histogram@;
    let mut i: usize = 0;
    while i < spans.len()
        invariant
            i <= spans.len(),
            views == span_views(spans@),
            stats.size_histogram@ == observed_onto(h, views.take(i as int)),
            stats.heading_sizes == old(stats).heading_sizes,
        decreases spans.len() - i,
    {
        assert(views.take(i + 1).drop_last() == views.take(i as int));
        assert(views[i as int] == spans@[i as int]@);
        stats.add_size(spans[i].font_size);
        i += 1;
    }
    assert(views.take(spans.len() as int) == views);
    stats.analyze();
}

/// Gathers the font statistics of the spans.
pub fn measure_fonts(spans: &Vec<TextSpan>) -> (r: FontStatistics)
    ensures
        r.size_histogram@ == observed(span_views(spans@)),
        r.body_size == body_of(observed(span_views(spans@))),
        r.heading_sizes@ == headings_of(observed(span_views(spans@))),
{
    let mut stats = FontStatistics::default();
    assert(stats.size_histogram@ =~= Seq::empty());
    observe_fonts(&mut stats, spans);
    assert(stats.heading_sizes@ =~= headings_of(observed(span_views(spans@))));
    stats
}

/// Analyses the spans of a page into blocks; see [`blocks_of_spans`].
pub fn analyze_spans(spans: &Vec<TextSpan>) -> (r: Vec<TextBlock>)
    ensures
        block_views(r@) == blocks_of_spans(span_views(spans@)),
{
    let stats = measure_fonts(spans);
    let lines = group_spans_into_lines(spans);
    let marked = detect_headings(&stats, lines);
    group_lines_into_blocks(&marked)
}

/// Analyses the layout of the pages of a document.
pub struct LayoutAnalyzer<'a, B: PdfBackend> {
    backend: &'a B,
    pages: Vec<(u32, PageId)>,
    font_stats: FontStatistics,
}

impl<'a, B: PdfBackend> LayoutAnalyzer<'a, B> {
    /// An analyzer over a backend, with no font size observed. The backend
    /// is asked for its pages once, here.
    pub fn new(backend: &'a B) -> (r: LayoutAnalyzer<'a, B>)
        ensures
            r.backend() == backend,
            r.font_stats().size_histogram@.len() == 0,
            r.font_stats().heading_sizes@.len() == 0,
            r.font_stats().body_size == 0,
    {
        let pages = backend.pages();
        LayoutAnalyzer { backend, pages, font_stats: FontStatistics::default() }
    }

    /// The backend.
    pub closed spec fn backend(&self) -> &'a B {
        self.backend
    }

    /// The pages that the backend listed when the analyzer was made.
    pub closed spec fn pages(&self) -> Seq<(u32, PageId)> {
        self.pages@
    }

    /// The pages that the backend listed when the analyzer was made.
    pub fn page_list(&self) -> (r: &Vec<(u32, PageId)>)
        ensures
            r@ == self.pages(),
    {
        &self.pages
    }

    /// The font statistics.
    pub closed spec fn font_stats(&self) -> FontStatistics {
        self.font_stats
    }

    /// The font statistics, to be changed.
    pub fn font_stats_mut(&mut self) -> (r: &mut FontStatistics)
        ensures
            *r == old(self).font_stats(),
            final(self).font_stats() == *final(r),
            final(self).backend() == old(self).backend(),
            final(self).pages() == old(self).pages(),
    {
        &mut self.font_stats
    }

    /// Groups spans into lines; see [`page_lines`].
    pub fn group_spans_into_lines_pub(&self, spans: Vec<TextSpan>) -> (r: Vec<TextLine>)
        ensures
            line_views(r@) == page_lines(span_views(spans@)),
    {
        group_spans_into_lines(&spans)
    }

    /// Marks the lines that are headings by the font statistics.
    pub fn detect_headings_pub(&self, lines: Vec<TextLine>) -> (r: Vec<TextLine>)
        ensures
            line_views(r@) == with_headings(
                line_views(lines@),
                self.font_stats().body_size as int,
                self.font_stats().heading_sizes@,
            ),
    {
        detect_headings(&self.font_stats, lines)
    }

    /// Groups lines into blocks; see [`page_blocks`].
    pub fn group_lines_into_blocks_pub(&self, lines: Vec<TextLine>) -> (r: Vec<TextBlock>)
        ensures
            block_views(r@) == page_blocks(line_views(lines@)),
    {
        group_lines_into_blocks(&lines)
    }

    /// Reads the spans of the page with the number: those of the first
    /// page listed under the number.
    ///
    /// Fails with `PageOutOfRange`, which names the number and how many pages
    /// are listed, where no page is listed under the number, and with the
    /// backend's error where the backend fails on the page.
    pub fn extract_page_spans(&self, page_num: u32) -> (r: Result<Vec<TextSpan>, Error>)
        ensures
            match r {
                Ok(spans) => id_of_page(self.pages(), page_num) is Some && are_interpreted(
                    span_views(spans@),
                ),
                Err(e) => id_of_page(self.pages(), page_num) is None ==> is_out_of_range(
                    e,
                    page_num,
                    self.pages(),
                ),
            },
    {
        let id = match find_page(&self.pages, page_num) {
            Ok(id) => id,
            Err(e) => {
                return Err(e);
            },
        };
        read_page_spans(self.backend, id)
    }

    /// Reads the page with the number and analyses it into blocks. The font
    /// sizes of the page are added to the statistics first; see
    /// [`analyze_with`].
    ///
    /// Fails as [`LayoutAnalyzer::extract_page_spans`] does, and then leaves
    /// the statistics as they are.
    pub fn extract_page_blocks(&mut self, page_num: u32) -> (r: Result<Vec<TextBlock>, Error>)
        ensures
            final(self).backend() == old(self).backend(),
            final(self).pages() == old(self).pages(),
            r is Ok ==> id_of_page(old(self).pages(), page_num) is Some,
            r matches Err(e) ==> final(self).font_stats() == old(self).font_stats() && (
            id_of_page(old(self).pages(), page_num) is None ==> is_out_of_range(
                e,
                page_num,
                old(self).pages(),
            )),
            r matches Ok(blocks) ==> exists|spans: Seq<SpanView>|
                are_interpreted(spans) && final(self).font_stats().size_histogram@
                    == observed_onto(old(self).font_stats().size_histogram@, spans)
                    && block_views(blocks@) == #[trigger] blocks_by(
                    spans,
                    final(self).font_stats().body_size as int,
                    final(self).font_stats().heading_sizes@,
                ),
    {
        let spans = match self.extract_page_spans(page_num) {
            Ok(s) => s,
            Err(e) => {
                return Err(e);
            },
        };
        let blocks = analyze_with(&mut self.font_stats, &spans);
        proof {
            let views = span_views(spans@);
            assert(are_interpreted(views));
            assert(block_views(blocks@) == blocks_by(
                views,
                self.font_stats().body_size as int,
                self.font_stats().heading_sizes@,
            ));
        }
        Ok(blocks)
    }
}

/// The blocks of spans under given font statistics: the spans grouped into
/// lines, the lines marked as headings, and grouped into blocks.
pub open spec fn blocks_by(spans: Seq<SpanView>, body: int, sizes: Seq<i32>) -> Seq<BlockView> {
    page_blocks(with_headings(page_lines(spans), body, sizes))
}

/// Adds the font sizes of the spans to the statistics and analyses the
/// spans into blocks under the statistics.
pub fn analyze_with(stats: &mut FontStatistics, spans: &Vec<TextSpan>) -> (r: Vec<TextBlock>)
    ensures
        final(stats).size_histogram@ == observed_onto(
            old(stats).size_histogram@,
            span_views(spans@),
        ),
        block_views(r@) == blocks_by(
            span_views(spans@),
            final(stats).body_size as int,
            final(stats).heading_sizes@,
        ),
{
    observe_fonts(stats, spans);
    let lines = group_spans_into_lines(spans);
    let marked = detect_headings(stats, lines);
    group_lines_into_blocks(&marked)
}

/// Finds the id of the page with the number among the pages.
///
/// Fails with `PageOutOfRange`, which names the number of pages, where no
/// page has the number.
pub fn find_page(pages: &Vec<(u32, PageId)>, page_num: u32) -> (r: Result<PageId, Error>)
    ensures
        match r {
            Ok(id) => id_of_page(pages@, page_num) == Some(id),
            Err(Error::PageOutOfRange(p, total)) => id_of_page(pages@, page_num) is None && p
                == page_num && total == counted_pages(pages@.len()),
            Err(_) => false,
        },
{
    let n = pages.len();
    let mut i: usize = 0;
    assert(pages@.subrange(0, n as int) == pages@);
    while i < n
        invariant
            i <= n,
            n == pages.len(),
            id_of_page(pages@, page_num) == id_of_page(
                pages@.subrange(i as int, n as int),
                page_num,
            ),
        decreases n - i,
    {
        assert(pages@.subrange(i as int, n as int)[0] == pages@[i as int]);
        let (number, id) = pages[i];
        if number == page_num {
            return Ok(id);
        }
        assert(pages@.subrange(i as int, n as int).drop_first() == pages@.subrange(
            i + 1,
            n as int,
        ));
        i += 1;
    }
    let total = if n > u32::MAX as usize {
        u32::MAX
    } else {
        n as u32
    };
    Err(Error::PageOutOfRange(page_num, total))
}

} // verus!
