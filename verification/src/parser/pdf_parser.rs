//! Parsing a document: every selected page is read, analysed and put
//! together from paragraphs and tables.

use crate::error::Error;
use crate::model::document::{
    duplicate_items, ids_unique, index_of_id, lemma_index_of_id, same_items, Document, Metadata,
    Outline, ResourceEntry,
};
use crate::model::page::{Block, Page};
use crate::model::paragraph::{clamp_level, is_body_style, is_plain_text, Paragraph, ParagraphStyle};
use crate::model::table::Table;
use crate::parser::analyzer::{
    analyze_spans, are_interpreted, blocks_of_spans, counted_pages, read_page_spans,
};
use crate::parser::backend::{PageId, PdfBackend};
use crate::parser::container::{
    extract_metadata, extract_xobject, get_page_dimensions, is_decodable, is_image, is_image_object,
    is_metadata_of, is_resource_of, page_size, ContainerInfo, XObjectEntry, XObjectInfo,
    UNDECODABLE_IMAGE,
};
use crate::parser::layout::{
    block_text, block_views, span_views, BlockType, BlockView, SpanView, TextBlock, TextSpan,
};
use crate::parser::options::{ErrorMode, ExtractMode, ParseOptions};
use crate::parser::table_detector::{
    default_config, detected_tables, is_model_of, table_views, unclaimed, DetectedTable,
    TableDetector, TableView,
};
use crate::render::options::{selects, PageSelection};
use crate::sorting::{as_ints, sort_order, sorted_order, Key};
use crate::text::{append_decimal, append_str, decimal};
use vstd::prelude::*;

verus! {

/// What a block of a page is to hold.
pub enum BlockSketch {
    /// A paragraph with one plain run of the text; a heading at the level
    /// where one is given.
    Paragraph { text: Seq<char>, heading: Option<u8> },
    /// The model of a detected table.
    Table(TableView),
}

/// The paragraph that a block of lines becomes: its text is that of the
/// block; a heading block becomes a heading at the block's level, brought
/// into 1 to 6.
pub open spec fn sketch_of(b: BlockView) -> BlockSketch {
    BlockSketch::Paragraph {
        text: block_text(b.lines),
        heading: if b.block_type == BlockType::Heading {
            Some(clamp_level(b.heading_level as u8))
        } else {
            None
        },
    }
}

/// The baseline of the first line of a block; 0 for a block without lines.
pub open spec fn block_top(b: BlockView) -> int {
    if b.lines.len() > 0 {
        b.lines[0].y
    } else {
        0
    }
}

/// Paragraph blocks and tables in reading order: from either row the one
/// that starts higher on the page comes first, a table before a block at
/// the same height.
pub open spec fn merged(blocks: Seq<BlockView>, tables: Seq<TableView>) -> Seq<BlockSketch>
    decreases blocks.len() + tables.len(),
{
    if tables.len() == 0 {
        if blocks.len() == 0 {
            Seq::empty()
        } else {
            seq![sketch_of(blocks[0])] + merged(blocks.drop_first(), tables)
        }
    } else if blocks.len() == 0 || tables[0].top_y >= block_top(blocks[0]) {
        seq![BlockSketch::Table(tables[0])] + merged(blocks, tables.drop_first())
    } else {
        seq![sketch_of(blocks[0])] + merged(blocks.drop_first(), tables)
    }
}

/// The keys that order tables from the top of the page down.
pub open spec fn table_keys(tables: Seq<TableView>) -> Seq<Key> {
    tables.map_values(|t: TableView| ((-t.top_y) as i64, 0i64))
}

/// The tables from the top of the page down.
pub open spec fn tables_top_down(tables: Seq<TableView>) -> Seq<TableView> {
    sort_order(table_keys(tables)).map_values(|i: int| tables[i])
}

/// The blocks of a page: the tables found among its spans, and the
/// paragraphs formed of the spans that no table claims, in reading order.
pub open spec fn assembled(spans: Seq<SpanView>) -> Seq<BlockSketch> {
    let tables = detected_tables(spans, default_config());
    let rest = unclaimed(spans, tables);
    merged(blocks_of_spans(rest), tables_top_down(tables))
}

/// The block holds what the sketch says.
pub open spec fn block_is(b: Block, s: BlockSketch) -> bool {
    match s {
        BlockSketch::Paragraph { text, heading } => b matches Block::Paragraph(p) && is_plain_text(
            p.content@,
            text,
        ) && p.style.heading_level == heading && is_body_style(
            ParagraphStyle { heading_level: None, ..p.style },
        ),
        BlockSketch::Table(t) => b matches Block::Table(m) && is_model_of(m, t),
    }
}

/// The blocks hold what the sketches say, one for one.
pub open spec fn blocks_are(blocks: Seq<Block>, sketches: Seq<BlockSketch>) -> bool {
    blocks.len() == sketches.len() && forall|i: int|
        0 <= i < blocks.len() ==> block_is(#[trigger] blocks[i], sketches[i])
}

fn paragraph_of(block: &TextBlock) -> (r: Block)
    ensures
        block_is(r, sketch_of(block@)),
{
    let text = block.text();
    match block.block_type {
        BlockType::Heading => Block::Paragraph(Paragraph::heading(text.as_str(), block.heading_level)),
        _ => Block::Paragraph(Paragraph::with_text(text.as_str())),
    }
}

fn top_of(block: &TextBlock) -> (r: i32)
    ensures
        r == block_top(block@),
{
    if block.lines.len() > 0 {
        assert(block@.lines[0] == block.lines@[0]@);
        block.lines[0].y
    } else {
        0
    }
}

/// The order of the tables from the top of the page down.
fn order_tables(tables: &Vec<DetectedTable>) -> (order: Vec<usize>)
    ensures
        as_ints(order@) == sort_order(table_keys(table_views(tables@))),
        order.len() == tables.len(),
        forall|i: int| 0 <= i < order.len() ==> #[trigger] order@[i] < tables.len(),
{
    let mut keys: Vec<Key> = Vec::new();
    let mut i: usize = 0;
    while i < tables.len()
        invariant
            i <= tables.len(),
            keys@ == table_keys(table_views(tables@)).take(i as int),
        decreases tables.len() - i,
    {
        keys.push((-(tables[i].top_y as i64), 0i64));
        i += 1;
    }
    assert(table_keys(table_views(tables@)).take(tables.len() as int) =~= table_keys(
        table_views(tables@),
    ));
    sorted_order(&keys)
}

/// Puts paragraph blocks and tables together in reading order; see
/// [`merged`].
pub fn merge_blocks(
    detector: &TableDetector,
    blocks: &Vec<TextBlock>,
    tables: &Vec<DetectedTable>,
) -> (r: Vec<Block>)
    ensures
        blocks_are(r@, merged(block_views(blocks@), tables_top_down(table_views(tables@)))),
{
    let order = order_tables(tables);
    let ghost bs = block_views(blocks@);
    let ghost ts = tables_top_down(table_views(tables@));
    assert(ts.len() == order.len()) by {
        assert(as_ints(order@).len() == order.len());
    }
    let mut out: Vec<Block> = Vec::new();
    let ghost mut done: Seq<BlockSketch> = Seq::empty();
    let mut i: usize = 0;
    let mut j: usize = 0;
    proof {
        assert(bs.subrange(0, bs.len() as int) == bs);
        assert(ts.subrange(0, ts.len() as int) == ts);
        assert(done + merged(bs, ts) =~= merged(bs, ts));
    }
    while i < blocks.len() || j < order.len()
        invariant
            i <= blocks.len(),
            j <= order.len(),
            bs == block_views(blocks@),
            ts == tables_top_down(table_views(tables@)),
            ts.len() == order.len(),
            as_ints(order@) == sort_order(table_keys(table_views(tables@))),
            forall|k: int| 0 <= k < order.len() ==> #[trigger] order@[k] < tables.len(),
            blocks_are(out@, done),
            done + merged(bs.subrange(i as int, bs.len() as int), ts.subrange(j as int, ts.len() as int))
                == merged(bs, ts),
        decreases blocks.len() - i + order.len() - j,
    {
        let ghost rest_b = bs.subrange(i as int, bs.len() as int);
        let ghost rest_t = ts.subrange(j as int, ts.len() as int);
        let ghost before = out@;
        let take_table = if j < order.len() {
            assert(as_ints(order@)[j as int] == order@[j as int] as int);
            assert(rest_t[0] == tables@[order@[j as int] as int]@);
            if i < blocks.len() {
                assert(rest_b[0] == blocks@[i as int]@);
                tables[order[j]].top_y >= top_of(&blocks[i])
            } else {
                true
            }
        } else {
            false
        };
        if take_table {
            let b = Block::Table(detector.to_table_model(&tables[order[j]]));
            out.push(b);
            proof {
                assert(rest_t.drop_first() == ts.subrange(j + 1, ts.len() as int));
                let sketch = BlockSketch::Table(rest_t[0]);
                assert(done.push(sketch) + merged(rest_b, rest_t.drop_first()) =~= done + (
                seq![sketch] + merged(rest_b, rest_t.drop_first())));
                assert forall|k: int| 0 <= k < out@.len() implies block_is(
                    #[trigger] out@[k],
                    done.push(sketch)[k],
                ) by {
                    if k < before.len() {
                        assert(out@[k] == before[k]);
                    }
                }
                done = done.push(sketch);
            }
            j += 1;
        } else {
            assert(rest_b[0] == blocks@[i as int]@);
            let b = paragraph_of(&blocks[i]);
            out.push(b);
            proof {
                assert(rest_b.drop_first() == bs.subrange(i + 1, bs.len() as int));
                let sketch = sketch_of(rest_b[0]);
                assert(done.push(sketch) + merged(rest_b.drop_first(), rest_t) =~= done + (
                seq![sketch] + merged(rest_b.drop_first(), rest_t)));
                assert forall|k: int| 0 <= k < out@.len() implies block_is(
                    #[trigger] out@[k],
                    done.push(sketch)[k],
                ) by {
                    if k < before.len() {
                        assert(out@[k] == before[k]);
                    }
                }
                done = done.push(sketch);
            }
            i += 1;
        }
    }
    proof {
        assert(bs.subrange(bs.len() as int, bs.len() as int) =~= Seq::<BlockView>::empty());
        assert(ts.subrange(ts.len() as int, ts.len() as int) =~= Seq::<TableView>::empty());
        assert(done + Seq::<BlockSketch>::empty() =~= done);
    }
    out
}

/// Builds the blocks of a page from its spans; see [`assembled`].
pub fn assemble_blocks(spans: Vec<TextSpan>) -> (r: Vec<Block>)
    ensures
        blocks_are(r@, assembled(span_views(spans@))),
{
    let detector = TableDetector::new();
    let (tables, rest) = detector.detect(spans);
    let blocks = analyze_spans(&rest);
    merge_blocks(&detector, &blocks, &tables)
}

/// The page has the number, its size from the container, and no rotation.
pub open spec fn is_page_shell(p: Page, number: u32, info: ContainerInfo) -> bool {
    &&& p.number == number
    &&& (p.width, p.height) == page_size(info.page_boxes@, number)
    &&& p.rotation == 0
}

/// What a page is made of when reading its spans gave `spans`: the blocks
/// assembled from the spans; where reading failed, no block in lenient mode
/// and no page in strict mode.
pub open spec fn is_page_from(
    r: Result<Page, Error>,
    info: ContainerInfo,
    o: ParseOptions,
    number: u32,
    spans: Result<Vec<TextSpan>, Error>,
) -> bool {
    match spans {
        Ok(s) => r matches Ok(p) && is_page_shell(p, number, info) && blocks_are(
            p.elements@,
            assembled(span_views(s@)),
        ),
        Err(e) => if o.error_mode == ErrorMode::Strict {
            r matches Err(f) && f == e
        } else {
            r matches Ok(p) && is_page_shell(p, number, info) && p.elements@.len() == 0
        },
    }
}

/// Makes a page of what reading its spans gave; see [`is_page_from`].
pub fn page_from_spans(
    info: &ContainerInfo,
    options: &ParseOptions,
    number: u32,
    spans: Result<Vec<TextSpan>, Error>,
) -> (r: Result<Page, Error>)
    ensures
        is_page_from(r, *info, *options, number, spans),
{
    let (width, height) = get_page_dimensions(&info.page_boxes, number);
    let mut result = Page::new(number, width, height);
    match spans {
        Ok(s) => {
            result.elements = assemble_blocks(s);
            Ok(result)
        },
        Err(e) => {
            match options.error_mode {
                ErrorMode::Strict => Err(e),
                ErrorMode::Lenient => Ok(result),
            }
        },
    }
}

/// The blocks of a page are those of a parse: none, or the blocks assembled
/// from spans that a content stream shows; none where only the structure
/// is asked for.
pub open spec fn is_page_content(blocks: Seq<Block>, o: ParseOptions) -> bool {
    &&& o.extract_mode == ExtractMode::StructureOnly ==> blocks.len() == 0
    &&& blocks.len() == 0 || exists|spans: Seq<SpanView>|
        are_interpreted(spans) && blocks_are(blocks, #[trigger] assembled(spans))
}

/// Parses one page: reads its spans from the backend, unless only the
/// structure is asked for, and makes the page of them. In strict mode a
/// failure of the backend is returned as it is; in lenient mode the page is
/// then left without blocks.
pub fn parse_page<B: PdfBackend>(
    backend: &B,
    info: &ContainerInfo,
    options: &ParseOptions,
    number: u32,
    page: PageId,
) -> (r: Result<Page, Error>)
    ensures
        r matches Ok(p) ==> is_page_shell(p, number, *info) && is_page_content(
            p.elements@,
            *options,
        ),
        options.extract_mode == ExtractMode::StructureOnly || options.error_mode
            == ErrorMode::Lenient ==> r is Ok,
{
    let structure_only = match options.extract_mode {
        ExtractMode::StructureOnly => true,
        _ => false,
    };
    if structure_only {
        let (width, height) = get_page_dimensions(&info.page_boxes, number);
        return Ok(Page::new(number, width, height));
    }
    let spans = read_page_spans(backend, page);
    let ghost views = match &spans {
        Ok(s) => span_views(s@),
        Err(_) => Seq::empty(),
    };
    let r = page_from_spans(info, options, number, spans);
    proof {
        if let Ok(p) = &r {
            if p.elements@.len() > 0 {
                assert(are_interpreted(views));
                assert(blocks_are(p.elements@, assembled(views)));
            }
        }
    }
    r
}

/// The pages that the selection holds, in their order.
pub open spec fn selected_pages(pages: Seq<(u32, PageId)>, o: ParseOptions) -> Seq<(u32, PageId)>
    decreases pages.len(),
{
    if pages.len() == 0 {
        Seq::empty()
    } else if selects(o.pages, pages.last().0) {
        selected_pages(pages.drop_last(), o).push(pages.last())
    } else {
        selected_pages(pages.drop_last(), o)
    }
}

/// The pages are those of a parse of the selected pages, one for one.
pub open spec fn pages_are(
    pages: Seq<Page>,
    listed: Seq<(u32, PageId)>,
    info: ContainerInfo,
    o: ParseOptions,
) -> bool {
    let selected = selected_pages(listed, o);
    pages.len() == selected.len() && forall|i: int|
        0 <= i < pages.len() ==> is_page_shell(#[trigger] pages[i], selected[i].0, info)
            && is_page_content(pages[i].elements@, o)
}

/// The id of the resource of an image object: `page`, the page number, an
/// underscore and the name of the object.
pub open spec fn resource_id(entry: XObjectEntry) -> Seq<char> {
    "page"@ + decimal(entry.page as nat) + "_"@ + entry.name@
}

/// Resources are extracted: they are asked for, and more than the
/// structure is.
pub open spec fn wants_resources(o: ParseOptions) -> bool {
    o.extract_resources && o.extract_mode != ExtractMode::StructureOnly
}

/// The document is what parsing gives when the backend lists the pages
/// `listed`.
pub open spec fn is_parsed_document(
    doc: Document,
    listed: Seq<(u32, PageId)>,
    info: ContainerInfo,
    o: ParseOptions,
) -> bool {
    &&& is_metadata_of(Metadata { page_count: 0, ..doc.metadata }, info)
    &&& doc.metadata.page_count == counted_pages(listed.len())
    &&& pages_are(doc.pages@, listed, info, o)
    &&& outline_is(doc.outline, info.outline)
    &&& resources_are(doc.resources@, info, wants_resources(o))
    &&& !resources_fail(info, o)
}

/// The outline is that of the container; none where the container has none
/// or an empty one.
pub open spec fn outline_is(outline: Option<Outline>, source: Option<Outline>) -> bool {
    match source {
        Some(s) => if s.items@.len() > 0 {
            outline matches Some(o) && same_items(s.items@, o.items@)
        } else {
            outline is None
        },
        None => outline is None,
    }
}

/// The place of the first entry under the id, or the number of entries.
pub open spec fn kept_index(kept: Seq<(Seq<char>, int)>, id: Seq<char>) -> int
    decreases kept.len(),
{
    if kept.len() == 0 {
        0
    } else if kept[0].0 == id {
        0
    } else {
        1 + kept_index(kept.drop_first(), id)
    }
}

/// An image whose data cannot be had.
pub open spec fn is_broken_image(x: XObjectInfo) -> bool {
    is_image_object(x) && !is_decodable(x)
}

/// Some image object is one whose data cannot be had.
pub open spec fn has_broken_image(xobjects: Seq<XObjectEntry>) -> bool {
    exists|k: int| 0 <= k < xobjects.len() && is_broken_image((#[trigger] xobjects[k]).object)
}

/// Reading the resources fails: they are wanted, the mode is strict, and
/// the data of some image cannot be had.
pub open spec fn resources_fail(info: ContainerInfo, o: ParseOptions) -> bool {
    wants_resources(o) && o.error_mode == ErrorMode::Strict && has_broken_image(info.xobjects@)
}

/// The image objects that give the resources, each with its id and its
/// place among the objects: an object that is no image is passed over, and
/// so is an image whose data cannot be had; an image whose id came before
/// takes the place of the earlier one.
pub open spec fn kept_images(xobjects: Seq<XObjectEntry>) -> Seq<(Seq<char>, int)>
    decreases xobjects.len(),
{
    if xobjects.len() == 0 {
        Seq::empty()
    } else {
        let before = kept_images(xobjects.drop_last());
        let entry = (resource_id(xobjects.last()), xobjects.len() - 1);
        if !is_image_object(xobjects.last().object) || !is_decodable(xobjects.last().object) {
            before
        } else if kept_index(before, entry.0) < before.len() {
            before.update(kept_index(before, entry.0), entry)
        } else {
            before.push(entry)
        }
    }
}

/// The resources are those of the image objects `kept`, one for one.
pub open spec fn resources_match(
    resources: Seq<ResourceEntry>,
    xobjects: Seq<XObjectEntry>,
    kept: Seq<(Seq<char>, int)>,
) -> bool {
    resources.len() == kept.len() && forall|i: int|
        0 <= i < resources.len() ==> (#[trigger] resources[i]).id@ == kept[i].0 && 0
            <= kept[i].1 < xobjects.len() && is_resource_of(
            resources[i].resource,
            xobjects[kept[i].1].object,
        )
}

/// The resources are those of the image objects of the container: none
/// where none are wanted; else the images of the objects of
/// [`kept_images`], each under the id of its object.
pub open spec fn resources_are(resources: Seq<ResourceEntry>, info: ContainerInfo, wanted: bool)
    -> bool {
    if wanted {
        resources_match(resources, info.xobjects@, kept_images(info.xobjects@))
    } else {
        resources.len() == 0
    }
}

proof fn lemma_kept_index(
    resources: Seq<ResourceEntry>,
    kept: Seq<(Seq<char>, int)>,
    id: Seq<char>,
)
    requires
        resources.len() == kept.len(),
        forall|i: int| 0 <= i < resources.len() ==> (#[trigger] resources[i]).id@ == kept[i].0,
    ensures
        index_of_id(resources, id) == kept_index(kept, id),
    decreases resources.len(),
{
    if resources.len() > 0 {
        assert(resources[0].id@ == kept[0].0);
        if resources[0].id@ != id {
            let r = resources.drop_first();
            let k = kept.drop_first();
            assert forall|i: int| 0 <= i < r.len() implies (#[trigger] r[i]).id@ == k[i].0 by {
                assert(r[i] == resources[i + 1]);
            }
            lemma_kept_index(r, k, id);
        }
    }
}

/// The numbers of the pages.
pub open spec fn page_numbers(pages: Seq<Page>) -> Seq<u32> {
    pages.map_values(|p: Page| p.number)
}

/// The numbers of the pages that the backend lists.
pub open spec fn container_numbers(pages: Seq<(u32, PageId)>) -> Seq<u32> {
    pages.map_values(|p: (u32, PageId)| p.0)
}

/// Among page numbers, those that the selection holds, in their order.
pub open spec fn selected_numbers(numbers: Seq<u32>, o: ParseOptions) -> Seq<u32>
    decreases numbers.len(),
{
    if numbers.len() == 0 {
        Seq::empty()
    } else if selects(o.pages, numbers.last()) {
        selected_numbers(numbers.drop_last(), o).push(numbers.last())
    } else {
        selected_numbers(numbers.drop_last(), o)
    }
}

proof fn lemma_selected_pages_numbers(pages: Seq<(u32, PageId)>, o: ParseOptions)
    ensures
        container_numbers(selected_pages(pages, o)) == selected_numbers(
            container_numbers(pages),
            o,
        ),
    decreases pages.len(),
{
    if pages.len() > 0 {
        lemma_selected_pages_numbers(pages.drop_last(), o);
        assert(container_numbers(pages).drop_last() =~= container_numbers(pages.drop_last()));
        assert(container_numbers(pages).last() == pages.last().0);
        if selects(o.pages, pages.last().0) {
            assert(container_numbers(selected_pages(pages.drop_last(), o).push(pages.last()))
                =~= container_numbers(selected_pages(pages.drop_last(), o)).push(pages.last().0));
        }
    } else {
        assert(container_numbers(Seq::<(u32, PageId)>::empty()) =~= Seq::<u32>::empty());
    }
}

/// The numbers rise from each to the next.
pub open spec fn rising(numbers: Seq<u32>) -> bool {
    forall|i: int, j: int| 0 <= i < j < numbers.len() ==> numbers[i] < numbers[j]
}

/// The selected numbers are the numbers of the list that the selection
/// holds, and no others; they rise where the list does.
pub proof fn lemma_selected_numbers(numbers: Seq<u32>, o: ParseOptions)
    ensures
        forall|k: u32|
            selected_numbers(numbers, o).contains(k) <==> numbers.contains(k) && selects(
                o.pages,
                k,
            ),
        rising(numbers) ==> rising(selected_numbers(numbers, o)),
    decreases numbers.len(),
{
    let out = selected_numbers(numbers, o);
    if numbers.len() > 0 {
        let front = numbers.drop_last();
        let last = numbers.last();
        let before = selected_numbers(front, o);
        lemma_selected_numbers(front, o);
        assert forall|k: u32| out.contains(k) <==> numbers.contains(k) && selects(
            o.pages,
            k,
        ) by {
            if out.contains(k) {
                let i = choose|i: int| 0 <= i < out.len() && out[i] == k;
                if selects(o.pages, last) && i == before.len() {
                    assert(numbers[numbers.len() - 1] == k);
                } else {
                    assert(before[i] == k);
                    assert(front.contains(k));
                    let j = choose|j: int| 0 <= j < front.len() && front[j] == k;
                    assert(numbers[j] == k);
                }
            }
            if numbers.contains(k) && selects(o.pages, k) {
                let j = choose|j: int| 0 <= j < numbers.len() && numbers[j] == k;
                if j == numbers.len() - 1 {
                    assert(out[before.len() as int] == k);
                } else {
                    assert(front[j] == k);
                    assert(front.contains(k));
                    assert(before.contains(k));
                    let i = choose|i: int| 0 <= i < before.len() && before[i] == k;
                    assert(out[i] == k);
                }
            }
        }
        if rising(numbers) {
            assert(rising(front)) by {
                assert forall|i: int, j: int| 0 <= i < j < front.len() implies front[i]
                    < front[j] by {
                    assert(numbers[i] < numbers[j]);
                }
            }
            assert forall|i: int, j: int| 0 <= i < j < out.len() implies out[i] < out[j] by {
                if j == before.len() {
                    assert(before.contains(before[i]));
                    assert(front.contains(out[i]));
                    let m = choose|m: int| 0 <= m < front.len() && front[m] == out[i];
                    assert(numbers[m] < numbers[numbers.len() - 1]);
                } else {
                    assert(before[i] < before[j]);
                }
            }
        }
    } else {
        assert(out.len() == 0);
    }
}

/// The pages of a parsed document are the pages of the container that the
/// selection holds, and no others. They come in the container's order, so
/// by rising numbers where the container lists its pages so.
pub proof fn lemma_parsed_pages_are_selected(
    doc: Document,
    listed: Seq<(u32, PageId)>,
    info: ContainerInfo,
    o: ParseOptions,
)
    requires
        is_parsed_document(doc, listed, info, o),
    ensures
        page_numbers(doc.pages@) == selected_numbers(container_numbers(listed), o),
        forall|k: u32|
            page_numbers(doc.pages@).contains(k) <==> container_numbers(listed).contains(k)
                && selects(o.pages, k),
        rising(container_numbers(listed)) ==> rising(page_numbers(doc.pages@)),
{
    let selected = selected_pages(listed, o);
    lemma_selected_pages_numbers(listed, o);
    lemma_selected_numbers(container_numbers(listed), o);
    assert(page_numbers(doc.pages@) =~= container_numbers(selected)) by {
        assert forall|i: int| 0 <= i < doc.pages@.len() implies page_numbers(doc.pages@)[i]
            == container_numbers(selected)[i] by {
            assert(doc.pages@[i].number == selected[i].0);
        }
    }
}

proof fn lemma_kept_index_shape(kept: Seq<(Seq<char>, int)>, id: Seq<char>)
    ensures
        0 <= kept_index(kept, id) <= kept.len(),
        kept_index(kept, id) < kept.len() ==> kept[kept_index(kept, id)].0 == id,
        forall|k: int| 0 <= k < kept_index(kept, id) ==> (#[trigger] kept[k]).0 != id,
    decreases kept.len(),
{
    if kept.len() > 0 && kept[0].0 != id {
        let rest = kept.drop_first();
        lemma_kept_index_shape(rest, id);
        assert forall|k: int| 0 <= k < kept_index(kept, id) implies (#[trigger] kept[k]).0
            != id by {
            if k > 0 {
                assert(kept[k] == rest[k - 1]);
            }
        }
    }
}

proof fn lemma_kept_ids_differ(xobjects: Seq<XObjectEntry>)
    ensures
        forall|i: int, j: int|
            0 <= i < j < kept_images(xobjects).len() ==> (#[trigger] kept_images(xobjects)[i]).0
                != (#[trigger] kept_images(xobjects)[j]).0,
    decreases xobjects.len(),
{
    if xobjects.len() > 0 {
        let before = kept_images(xobjects.drop_last());
        let out = kept_images(xobjects);
        let id = resource_id(xobjects.last());
        lemma_kept_ids_differ(xobjects.drop_last());
        lemma_kept_index_shape(before, id);
        if is_image_object(xobjects.last().object) && is_decodable(xobjects.last().object) {
            assert forall|i: int, j: int| 0 <= i < j < out.len() implies (#[trigger] out[i]).0 != (
            #[trigger] out[j]).0 by {
                if kept_index(before, id) < before.len() {
                    assert(out[i].0 == before[i].0);
                    assert(out[j].0 == before[j].0);
                } else if j == before.len() {
                    assert(out[i] == before[i]);
                } else {
                    assert(out[i] == before[i]);
                    assert(out[j] == before[j]);
                }
            }
        }
    }
}

/// In a parsed document no resource id occurs twice.
pub proof fn lemma_parsed_resources_differ(
    doc: Document,
    listed: Seq<(u32, PageId)>,
    info: ContainerInfo,
    o: ParseOptions,
)
    requires
        is_parsed_document(doc, listed, info, o),
    ensures
        ids_unique(doc.resources@),
{
    if wants_resources(o) {
        lemma_kept_ids_differ(info.xobjects@);
        let kept = kept_images(info.xobjects@);
        assert forall|i: int, j: int| 0 <= i < j < doc.resources@.len() implies (
        #[trigger] doc.resources@[i]).id@ != (#[trigger] doc.resources@[j]).id@ by {
            assert(doc.resources@[i].id@ == kept[i].0);
            assert(doc.resources@[j].id@ == kept[j].0);
        }
    }
}

/// Where all pages are selected, the page count of a parsed document is
/// the number of its pages, as far as 32 bits can count.
pub proof fn lemma_all_pages_are_counted(
    doc: Document,
    listed: Seq<(u32, PageId)>,
    info: ContainerInfo,
    o: ParseOptions,
)
    requires
        is_parsed_document(doc, listed, info, o),
        o.pages == PageSelection::All,
    ensures
        doc.metadata.page_count == counted_pages(doc.pages@.len()),
{
    lemma_all_are_selected(listed, o);
}

proof fn lemma_all_are_selected(listed: Seq<(u32, PageId)>, o: ParseOptions)
    requires
        o.pages == PageSelection::All,
    ensures
        selected_pages(listed, o) == listed,
    decreases listed.len(),
{
    if listed.len() > 0 {
        lemma_all_are_selected(listed.drop_last(), o);
        assert(listed.drop_last().push(listed.last()) =~= listed);
    } else {
        assert(selected_pages(listed, o) =~= listed);
    }
}

/// Whether pages may be parsed in parallel makes no difference to what
/// parsing gives: a document is what parsing gives with the one setting
/// exactly when it is with the other.
pub proof fn lemma_parallel_makes_no_difference(
    doc: Document,
    listed: Seq<(u32, PageId)>,
    info: ContainerInfo,
    o: ParseOptions,
    parallel: bool,
)
    ensures
        is_parsed_document(doc, listed, info, o) == is_parsed_document(
            doc,
            listed,
            info,
            ParseOptions { parallel, ..o },
        ),
{
    let p = ParseOptions { parallel, ..o };
    lemma_selection_ignores_parallel(listed, o, parallel);
    assert(wants_resources(o) == wants_resources(p));
    let selected = selected_pages(listed, o);
    if pages_are(doc.pages@, listed, info, o) {
        assert forall|i: int| 0 <= i < doc.pages@.len() implies is_page_shell(
            #[trigger] doc.pages@[i],
            selected[i].0,
            info,
        ) && is_page_content(doc.pages@[i].elements@, p) by {
            assert(is_page_content(doc.pages@[i].elements@, o));
        }
    }
    if pages_are(doc.pages@, listed, info, p) {
        assert forall|i: int| 0 <= i < doc.pages@.len() implies is_page_shell(
            #[trigger] doc.pages@[i],
            selected[i].0,
            info,
        ) && is_page_content(doc.pages@[i].elements@, o) by {
            assert(is_page_content(doc.pages@[i].elements@, p));
        }
    }
}

proof fn lemma_selection_ignores_parallel(pages: Seq<(u32, PageId)>, o: ParseOptions, parallel: bool)
    ensures
        selected_pages(pages, o) == selected_pages(pages, ParseOptions { parallel, ..o }),
    decreases pages.len(),
{
    if pages.len() > 0 {
        lemma_selection_ignores_parallel(pages.drop_last(), o, parallel);
    }
}

/// Parses a document from a backend and what the container says.
pub struct PdfParser<B: PdfBackend> {
    backend: B,
    pages: Vec<(u32, PageId)>,
    info: ContainerInfo,
    options: ParseOptions,
}

fn resource_key(entry: &XObjectEntry) -> (r: String)
    ensures
        r@ == resource_id(*entry),
{
    let mut key = String::new();
    append_str(&mut key, "page");
    append_decimal(&mut key, entry.page as u64);
    append_str(&mut key, "_");
    append_str(&mut key, entry.name.as_str());
    key
}

/// Makes the resources of the image objects of the container; see
/// [`resources_are`]. An object that is no image is passed over.
///
/// Where the data of an image cannot be had, the strict mode fails with
/// the `ImageExtract` error of the first such image, and otherwise the
/// image is passed over.
pub fn extract_resources(info: &ContainerInfo, strict: bool) -> (r: Result<
    Vec<ResourceEntry>,
    Error,
>)
    ensures
        match r {
            Ok(v) => resources_are(v@, *info, true) && !(strict && has_broken_image(
                info.xobjects@,
            )),
            Err(Error::ImageExtract(m)) => strict && has_broken_image(info.xobjects@) && m@
                == UNDECODABLE_IMAGE@,
            Err(_) => false,
        },
{
    let mut doc = Document::new();
    let ghost all = info.xobjects@;
    let mut i: usize = 0;
    while i < info.xobjects.len()
        invariant
            i <= info.xobjects.len(),
            all == info.xobjects@,
            resources_match(doc.resources@, all, kept_images(all.take(i as int))),
            strict ==> forall|k: int| 0 <= k < i ==> !is_broken_image((#[trigger] all[k]).object),
        decreases info.xobjects.len() - i,
    {
        assert(all.take(i + 1).drop_last() == all.take(i as int));
        let entry = &info.xobjects[i];
        if is_image(&entry.object) {
            match extract_xobject(&entry.object) {
                Ok(resource) => {
                    let ghost before = doc.resources@;
                    let ghost kept = kept_images(all.take(i as int));
                    let key = resource_key(entry);
                    proof {
                        lemma_kept_index(before, kept, key@);
                        lemma_index_of_id(before, key@);
                    }
                    doc.add_resource(key, resource);
                },
                Err(e) => {
                    if strict {
                        assert(is_broken_image(all[i as int].object));
                        return Err(e);
                    }
                },
            }
        }
        i += 1;
    }
    assert(all.take(info.xobjects.len() as int) == all);
    Ok(doc.resources)
}

/// The document of a container that lists `listed` pages, of which the
/// selected ones were parsed as `pages`: the metadata of the container with
/// the number of listed pages, the pages as they are, the outline of the
/// container unless it is empty, and the images where they are asked for.
///
/// Fails where the images are asked for, the mode is strict and the data of
/// an image cannot be had.
pub fn document_of(info: &ContainerInfo, options: &ParseOptions, listed: usize, pages: Vec<Page>)
    -> (r: Result<Document, Error>)
    ensures
        match r {
            Ok(doc) => {
                &&& is_metadata_of(Metadata { page_count: 0, ..doc.metadata }, *info)
                &&& doc.metadata.page_count == counted_pages(listed as nat)
                &&& doc.pages == pages
                &&& outline_is(doc.outline, info.outline)
                &&& resources_are(doc.resources@, *info, wants_resources(*options))
                &&& !resources_fail(*info, *options)
            },
            Err(Error::ImageExtract(m)) => resources_fail(*info, *options) && m@
                == UNDECODABLE_IMAGE@,
            Err(_) => false,
        },
{
    let mut document = Document::new();
    document.metadata = extract_metadata(info);
    document.metadata.page_count = if listed > u32::MAX as usize {
        u32::MAX
    } else {
        listed as u32
    };
    document.pages = pages;
    match &info.outline {
        Some(outline) => {
            if outline.items.len() > 0 {
                document.outline = Some(Outline { items: duplicate_items(&outline.items) });
            }
        },
        None => {},
    }
    let wanted = options.extract_resources && match options.extract_mode {
        ExtractMode::StructureOnly => false,
        _ => true,
    };
    if wanted {
        let strict = match options.error_mode {
            ErrorMode::Strict => true,
            ErrorMode::Lenient => false,
        };
        match extract_resources(info, strict) {
            Ok(resources) => {
                document.resources = resources;
            },
            Err(e) => {
                return Err(e);
            },
        }
    }
    Ok(document)
}

impl<B: PdfBackend> PdfParser<B> {
    /// A parser over a backend and what the container says. The backend is
    /// asked for its pages once, here.
    pub fn with_backend(backend: B, info: ContainerInfo, options: ParseOptions) -> (r: PdfParser<B>)
        ensures
            r.backend() == backend,
            r.info() == info,
            r.options() == options,
    {
        let pages = backend.pages();
        PdfParser { backend, pages, info, options }
    }

    /// The backend.
    pub closed spec fn backend(&self) -> B {
        self.backend
    }

    /// The pages that the backend listed when the parser was made.
    pub closed spec fn pages(&self) -> Seq<(u32, PageId)> {
        self.pages@
    }

    /// The pages that the backend listed when the parser was made.
    pub fn page_list(&self) -> (r: &Vec<(u32, PageId)>)
        ensures
            r@ == self.pages(),
    {
        &self.pages
    }

    /// What the container says.
    pub closed spec fn info(&self) -> ContainerInfo {
        self.info
    }

    /// The options.
    pub closed spec fn options(&self) -> ParseOptions {
        self.options
    }

    /// Parses the document whose pages the backend lists as `pages`: the
    /// metadata, the selected pages in the order of the list, the outline,
    /// and the images where they are asked for. See [`is_parsed_document`].
    ///
    /// In strict mode parsing fails where a selected page cannot be read, with
    /// the error of the first such page, and where the images are asked for
    /// and the data of one cannot be had. In lenient mode it does not fail.
    pub fn parse_pages(&self, pages: &Vec<(u32, PageId)>) -> (r: Result<Document, Error>)
        ensures
            r matches Ok(doc) ==> is_parsed_document(doc, pages@, self.info(), self.options()),
            resources_fail(self.info(), self.options()) ==> r is Err,
            self.options().extract_mode == ExtractMode::StructureOnly
                || self.options().error_mode == ErrorMode::Lenient ==> r is Ok,
    {
        let ghost list = pages@;
        let mut parsed: Vec<Page> = Vec::new();
        let mut i: usize = 0;
        while i < pages.len()
            invariant
                i <= pages.len(),
                pages@ == list,
                pages_are(parsed@, list.take(i as int), self.info(), self.options()),
            decreases pages.len() - i,
        {
            assert(list.take(i + 1).drop_last() == list.take(i as int));
            let (number, id) = pages[i];
            if self.options.pages.includes(number) {
                let ghost before = parsed@;
                let ghost selected_before = selected_pages(list.take(i as int), self.options);
                match parse_page(&self.backend, &self.info, &self.options, number, id) {
                    Ok(page) => {
                        parsed.push(page);
                        proof {
                            let selected = selected_pages(list.take(i + 1), self.options);
                            assert(selected == selected_before.push(list[i as int]));
                            assert forall|k: int| 0 <= k < parsed@.len() implies is_page_shell(
                                #[trigger] parsed@[k],
                                selected[k].0,
                                self.info(),
                            ) && is_page_content(parsed@[k].elements@, self.options()) by {
                                if k < selected_before.len() {
                                    assert(selected[k] == selected_before[k]);
                                    assert(parsed@[k] == before[k]);
                                }
                            }
                        }
                    },
                    Err(e) => {
                        return Err(e);
                    },
                }
            }
            i += 1;
        }
        assert(list.take(pages.len() as int) == list);
        document_of(&self.info, &self.options, pages.len(), parsed)
    }

    /// Parses the document of the pages that the backend listed; see
    /// [`PdfParser::parse_pages`].
    pub fn parse(&self) -> (r: Result<Document, Error>)
        ensures
            r matches Ok(doc) ==> is_parsed_document(
                doc,
                self.pages(),
                self.info(),
                self.options(),
            ),
            resources_fail(self.info(), self.options()) ==> r is Err,
            self.options().extract_mode == ExtractMode::StructureOnly
                || self.options().error_mode == ErrorMode::Lenient ==> r is Ok,
    {
        self.parse_pages(&self.pages)
    }

    /// The number of pages that the backend listed, as far as 32 bits can
    /// count.
    pub fn page_count(&self) -> (r: u32)
        ensures
            r == counted_pages(self.pages().len()),
    {
        let n = self.pages.len();
        if n > u32::MAX as usize {
            u32::MAX
        } else {
            n as u32
        }
    }

    /// Tests whether the container is encrypted.
    pub fn is_encrypted(&self) -> (r: bool)
        ensures
            r == self.info().encrypted,
    {
        self.info.encrypted
    }

    /// The PDF version of the container.
    pub fn version(&self) -> (r: String)
        ensures
            r@ == self.info().version@,
    {
        self.info.version.clone()
    }
}

} // verus!
