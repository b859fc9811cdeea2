//! Table detection from the positions of text alone: rows by baseline,
//! columns by left edges that repeat across rows, tables as runs of rows
//! that keep to the columns. Regions that read as lists are rejected.

use crate::model::table::{is_text_cell, Table, TableCell, TableRow};
use crate::parser::layout::{
    duplicate_spans, group_by_baseline, group_views, grouped, max_right, min_left,
    sort_spans_for_reading, sorted_for_reading, span_views, text_extent, SpanView, TextSpan,
};
use crate::sorting::{as_ints, sort_order, sorted_order, Key};
use crate::text::{
    all_digits, extend_chars, from_chars, is_ascii_digit, parsed_u32, strip_whitespace, to_chars,
    trim, trim_chars, without_whitespace,
};
use crate::units::{
    abs, clamp32, clamp64, clamp_wide_to_i32, distance, div_toward_zero, div_trunc_wide,
};
use vstd::prelude::*;

verus! {

/// A row of a table region: the spans on one baseline.
#[derive(Debug)]
pub struct TableRowData {
    /// The baseline: the mean of the baselines of the spans.
    pub y: i32,
    /// The spans, from left to right.
    pub spans: Vec<TextSpan>,
}

/// The mathematical value of a [`TableRowData`].
pub struct RowView {
    pub y: int,
    pub spans: Seq<SpanView>,
}

impl View for TableRowData {
    type V = RowView;

    open spec fn view(&self) -> RowView {
        RowView { y: self.y as int, spans: span_views(self.spans@) }
    }
}

/// The values of a sequence of rows.
pub open spec fn row_views(v: Seq<TableRowData>) -> Seq<RowView> {
    v.map_values(|r: TableRowData| r@)
}

impl TableRowData {
    /// A copy of the row.
    pub fn duplicate(&self) -> (r: TableRowData)
        ensures
            r@ == self@,
    {
        TableRowData { y: self.y, spans: duplicate_spans(&self.spans) }
    }
}

/// A table found on a page. Lengths are in thousandths of a point.
#[derive(Debug)]
pub struct DetectedTable {
    /// The baseline of the first row.
    pub top_y: i32,
    /// The baseline of the last row.
    pub bottom_y: i32,
    /// The smallest left edge of a span.
    pub left_x: i64,
    /// The largest right edge of a span.
    pub right_x: i64,
    /// The left edges of the columns, ascending.
    pub columns: Vec<i64>,
    /// The rows, top to bottom.
    pub rows: Vec<TableRowData>,
}

/// The mathematical value of a [`DetectedTable`].
pub struct TableView {
    pub top_y: int,
    pub bottom_y: int,
    pub left_x: int,
    pub right_x: int,
    pub columns: Seq<i64>,
    pub rows: Seq<RowView>,
}

impl View for DetectedTable {
    type V = TableView;

    open spec fn view(&self) -> TableView {
        TableView {
            top_y: self.top_y as int,
            bottom_y: self.bottom_y as int,
            left_x: self.left_x as int,
            right_x: self.right_x as int,
            columns: self.columns@,
            rows: row_views(self.rows@),
        }
    }
}

/// The values of a sequence of tables.
pub open spec fn table_views(v: Seq<DetectedTable>) -> Seq<TableView> {
    v.map_values(|t: DetectedTable| t@)
}

/// What the detector asks of a table. Ratios and factors are in
/// thousandths, the gap in thousandths of a point.
#[derive(Debug, Clone, Copy, PartialEq, Eq, Structural)]
pub struct TableDetectorConfig {
    /// A table has at least this many rows.
    pub min_rows: usize,
    /// A table has at least this many columns.
    pub min_columns: usize,
    /// A table has at most this many columns.
    pub max_columns: usize,
    /// Spans share a row when their baselines differ by no more than this
    /// fraction of the font size.
    pub y_tolerance_factor: i32,
    /// The share of rows, and of the spans of a row, that must keep to a
    /// column edge.
    pub min_alignment_ratio: i32,
    /// Column edges nearer than this are one.
    pub min_column_gap: i32,
}

/// The default configuration: 2 rows, 2 to 6 columns, tolerance 0.4,
/// alignment ratio 0.3, column gap 15 points.
pub open spec fn default_config() -> TableDetectorConfig {
    TableDetectorConfig {
        min_rows: 2,
        min_columns: 2,
        max_columns: 6,
        y_tolerance_factor: 400,
        min_alignment_ratio: 300,
        min_column_gap: 15000,
    }
}

impl Default for TableDetectorConfig {
    fn default() -> (r: TableDetectorConfig)
        ensures
            r == default_config(),
    {
        TableDetectorConfig {
            min_rows: 2,
            min_columns: 2,
            max_columns: 6,
            y_tolerance_factor: 400,
            min_alignment_ratio: 300,
            min_column_gap: 15000,
        }
    }
}

/// The sum of the baselines of the spans.
pub open spec fn sum_of_y(spans: Seq<SpanView>) -> int
    decreases spans.len(),
{
    if spans.len() == 0 {
        0
    } else {
        sum_of_y(spans.drop_last()) + spans.last().y
    }
}

/// The row that a group of spans forms, at the mean of their baselines.
pub open spec fn row_of(spans: Seq<SpanView>) -> RowView {
    RowView {
        y: if spans.len() == 0 {
            0
        } else {
            clamp32(div_toward_zero(sum_of_y(spans), spans.len() as int))
        },
        spans,
    }
}

/// The rows of a page: the spans in reading order, grouped by baseline.
pub open spec fn rows_of(spans: Seq<SpanView>, factor: int) -> Seq<RowView> {
    grouped(sorted_for_reading(spans), factor).map_values(|g: Seq<SpanView>| row_of(g))
}

/// The bucket of a left edge: the nearest multiple of 5 points, halves away
/// from zero, counted in units of 5 points.
pub open spec fn bucket_of(x: int) -> int {
    if x >= 0 {
        (x + 2500) / 5000
    } else {
        -((-x + 2500) / 5000)
    }
}

/// The buckets of the left edges of the spans.
pub open spec fn span_buckets(spans: Seq<SpanView>) -> Seq<i64> {
    spans.map_values(|s: SpanView| bucket_of(s.x) as i64)
}

/// A row takes part in the vote: every row in the simple count, and a row
/// of at least two spans otherwise.
pub open spec fn row_votes(row: RowView, simple: bool) -> bool {
    simple || row.spans.len() >= 2
}

/// The buckets of all spans of the rows that vote, row after row.
pub open spec fn all_buckets(rows: Seq<RowView>, simple: bool) -> Seq<i64>
    decreases rows.len(),
{
    if rows.len() == 0 {
        Seq::empty()
    } else if row_votes(rows.last(), simple) {
        all_buckets(rows.drop_last(), simple) + span_buckets(rows.last().spans)
    } else {
        all_buckets(rows.drop_last(), simple)
    }
}

/// The number of times `b` occurs in `buckets`.
pub open spec fn occurrences(buckets: Seq<i64>, b: i64) -> int
    decreases buckets.len(),
{
    if buckets.len() == 0 {
        0
    } else {
        occurrences(buckets.drop_last(), b) + if buckets.last() == b {
            1int
        } else {
            0int
        }
    }
}

/// The votes for bucket `b`. In the simple count every span in the bucket
/// is a vote; otherwise each row of at least two spans has one vote for
/// each bucket that one of its spans falls into.
pub open spec fn votes(rows: Seq<RowView>, simple: bool, b: i64) -> int
    decreases rows.len(),
{
    if rows.len() == 0 {
        0
    } else {
        let n = occurrences(span_buckets(rows.last().spans), b);
        votes(rows.drop_last(), simple, b) + if !row_votes(rows.last(), simple) {
            0
        } else if simple {
            n
        } else if n > 0 {
            1
        } else {
            0
        }
    }
}

/// The number of rows that vote.
pub open spec fn voters(rows: Seq<RowView>, simple: bool) -> int
    decreases rows.len(),
{
    if rows.len() == 0 {
        0
    } else {
        voters(rows.drop_last(), simple) + if row_votes(rows.last(), simple) {
            1int
        } else {
            0int
        }
    }
}

/// The votes that make a bucket a column edge: the given share of the
/// voters, rounded down, and at least 2.
pub open spec fn votes_needed(voters: int, ratio: int) -> int {
    let share = if ratio <= 0 {
        0
    } else {
        voters * ratio / 1000
    };
    if share > 2 {
        share
    } else {
        2
    }
}

/// The keys that order buckets ascending.
pub open spec fn bucket_keys(buckets: Seq<i64>) -> Seq<Key> {
    buckets.map_values(|b: i64| (b, 0i64))
}

/// The buckets in ascending order.
pub open spec fn sorted_buckets(buckets: Seq<i64>) -> Seq<i64> {
    sort_order(bucket_keys(buckets)).map_values(|i: int| buckets[i])
}

/// The column edges among sorted buckets: each bucket once, where it has
/// the votes needed, and where it lies at least `gap` to the right of the
/// edge kept before it.
pub open spec fn edges_among(
    sorted: Seq<i64>,
    rows: Seq<RowView>,
    simple: bool,
    needed: int,
    gap: int,
) -> Seq<i64>
    decreases sorted.len(),
{
    if sorted.len() == 0 {
        Seq::empty()
    } else {
        let kept = edges_among(sorted.drop_last(), rows, simple, needed, gap);
        let b = sorted.last();
        let edge = (b * 5000) as i64;
        let repeated = sorted.len() >= 2 && sorted[sorted.len() - 2] == b;
        if repeated || votes(rows, simple, b) < needed {
            kept
        } else if kept.len() > 0 && edge - kept.last() < gap {
            kept
        } else {
            kept.push(edge)
        }
    }
}

/// The column edges that the rows vote for, by one way of counting.
pub open spec fn edges_by(rows: Seq<RowView>, simple: bool, c: TableDetectorConfig) -> Seq<i64> {
    edges_among(
        sorted_buckets(all_buckets(rows, simple)),
        rows,
        simple,
        votes_needed(voters(rows, simple), c.min_alignment_ratio as int),
        c.min_column_gap as int,
    )
}

/// The column edges of the rows. Where fewer rows than a table needs have
/// two spans or more, every span votes; otherwise the rows of at least two
/// spans vote, once for each bucket.
pub open spec fn column_edges(rows: Seq<RowView>, c: TableDetectorConfig) -> Seq<i64> {
    if rows.len() == 0 {
        Seq::empty()
    } else if voters(rows, false) < c.min_rows {
        edges_by(rows, true, c)
    } else {
        edges_by(rows, false, c)
    }
}

/// The span's left edge lies within 5 points of a column edge.
pub open spec fn near_edge(s: SpanView, columns: Seq<i64>) -> bool {
    exists|k: int| 0 <= k < columns.len() && abs(s.x - #[trigger] columns[k]) <= 5000
}

/// The number of spans near a column edge.
pub open spec fn aligned_spans(spans: Seq<SpanView>, columns: Seq<i64>) -> int
    decreases spans.len(),
{
    if spans.len() == 0 {
        0
    } else {
        aligned_spans(spans.drop_last(), columns) + if near_edge(spans.last(), columns) {
            1int
        } else {
            0int
        }
    }
}

/// The row keeps to the columns: the share of its spans near a column edge
/// reaches the ratio. A row without spans has the share 0.
pub open spec fn row_aligned(row: RowView, columns: Seq<i64>, ratio: int) -> bool {
    if row.spans.len() == 0 || columns.len() == 0 {
        0 >= ratio
    } else {
        1000 * aligned_spans(row.spans, columns) >= ratio * row.spans.len()
    }
}

/// The length of the run of aligned rows that ends before row `n`.
pub open spec fn run_before(flags: Seq<bool>, n: int) -> int
    decreases n,
{
    if n <= 0 || n > flags.len() {
        0
    } else if flags[n - 1] {
        run_before(flags, n - 1) + 1
    } else {
        0
    }
}

/// The runs of aligned rows, at least `min_rows` long, that end before row
/// `n` and are followed by a row that is not aligned; each as its first and
/// its last row.
pub open spec fn closed_regions(flags: Seq<bool>, min_rows: int, n: int) -> Seq<(usize, usize)>
    decreases n,
{
    if n <= 0 || n > flags.len() {
        Seq::empty()
    } else {
        let before = closed_regions(flags, min_rows, n - 1);
        let run = run_before(flags, n - 1);
        if !flags[n - 1] && run > 0 && run >= min_rows {
            before.push(((n - 1 - run) as usize, (n - 2) as usize))
        } else {
            before
        }
    }
}

/// The regions of a page: the maximal runs of aligned rows that are at
/// least `min_rows` long, each as its first and its last row.
pub open spec fn regions_of(flags: Seq<bool>, min_rows: int) -> Seq<(usize, usize)> {
    let n = flags.len() as int;
    let before = closed_regions(flags, min_rows, n);
    let run = run_before(flags, n);
    if run > 0 && run >= min_rows {
        before.push(((n - run) as usize, (n - 1) as usize))
    } else {
        before
    }
}

/// For each row, whether it keeps to the columns.
pub open spec fn alignment_flags(rows: Seq<RowView>, columns: Seq<i64>, ratio: int) -> Seq<bool> {
    rows.map_values(|r: RowView| row_aligned(r, columns, ratio))
}

/// The table regions among the rows; none without rows or with fewer
/// columns than a table needs.
pub open spec fn table_regions(rows: Seq<RowView>, columns: Seq<i64>, c: TableDetectorConfig)
    -> Seq<(usize, usize)> {
    if rows.len() == 0 || columns.len() < c.min_columns {
        Seq::empty()
    } else {
        regions_of(
            alignment_flags(rows, columns, c.min_alignment_ratio as int),
            c.min_rows as int,
        )
    }
}

/// The marks that open a bulleted item.
pub open spec fn is_bullet_char(c: char) -> bool {
    c == '-' || c == '\u{2013}' || c == '\u{2014}' || c == '\u{2022}' || c == '\u{00B7}' || c
        == '*' || c == '\u{25CB}' || c == '\u{25AA}' || c == '\u{25E6}' || c == '\u{25B8}' || c
        == '\u{25B9}' || c == '\u{25BA}' || c == '\u{25A0}' || c == '\u{25CF}' || c == '\u{203B}'
        || c == '\u{25A1}' || c == '\u{25C6}' || c == '\u{25C7}' || c == '\u{25B6}' || c
        == '\u{25B7}' || c == '\u{261E}' || c == '\u{27A4}' || c == '\u{279C}'
}

/// The trimmed text is a single bullet mark.
pub open spec fn is_bullet_text(text: Seq<char>) -> bool {
    trim(text).len() == 1 && is_bullet_char(trim(text)[0])
}

/// The number of decimal digits that the text starts with.
pub open spec fn leading_digits(text: Seq<char>) -> int
    decreases text.len(),
{
    if text.len() == 0 || !is_ascii_digit(text[0]) {
        0
    } else {
        1 + leading_digits(text.drop_first())
    }
}

/// An ASCII letter.
pub open spec fn is_ascii_letter(c: char) -> bool {
    ('a' <= c <= 'z') || ('A' <= c <= 'Z')
}

/// The text, whitespace aside, marks a numbered item: digits and then `.`
/// or `)`, a bare number, or one letter and then `.` or `)`.
pub open spec fn is_number_text(text: Seq<char>) -> bool {
    let t = without_whitespace(text);
    let d = leading_digits(t);
    (d > 0 && t.len() == d + 1 && (t[d] == '.' || t[d] == ')')) || parsed_u32(t) is Some || (t.len()
        == 2 && is_ascii_letter(t[0]) && (t[1] == '.' || t[1] == ')'))
}

/// The index of the leftmost span; of several at the same left edge, the
/// first.
pub open spec fn leftmost(spans: Seq<SpanView>) -> int
    decreases spans.len(),
{
    if spans.len() <= 1 {
        0
    } else {
        let best = leftmost(spans.drop_last());
        if spans.last().x < spans[best].x {
            spans.len() - 1
        } else {
            best
        }
    }
}

/// The number of rows whose leftmost span is a bullet mark.
pub open spec fn bullet_rows(rows: Seq<RowView>) -> int
    decreases rows.len(),
{
    if rows.len() == 0 {
        0
    } else {
        let r = rows.last();
        bullet_rows(rows.drop_last()) + if r.spans.len() > 0 && is_bullet_text(
            r.spans[leftmost(r.spans)].text,
        ) {
            1int
        } else {
            0int
        }
    }
}

/// The number of rows whose leftmost span marks a numbered item and is no
/// bullet mark.
pub open spec fn number_rows(rows: Seq<RowView>) -> int
    decreases rows.len(),
{
    if rows.len() == 0 {
        0
    } else {
        let r = rows.last();
        number_rows(rows.drop_last()) + if r.spans.len() > 0 && !is_bullet_text(
            r.spans[leftmost(r.spans)].text,
        ) && is_number_text(r.spans[leftmost(r.spans)].text) {
            1int
        } else {
            0int
        }
    }
}

/// The region reads as a list: it has at least two columns, and half of its
/// rows or more start with a bullet mark, or it has exactly two columns and
/// half of its rows or more start with a bullet mark or a number marker.
pub open spec fn is_list(rows: Seq<RowView>, columns: Seq<i64>) -> bool {
    columns.len() >= 2 && rows.len() > 0 && (2 * bullet_rows(rows) >= rows.len() || (columns.len()
        == 2 && 2 * (bullet_rows(rows) + number_rows(rows)) >= rows.len()))
}

/// All spans of the rows, row after row.
pub open spec fn all_spans(rows: Seq<RowView>) -> Seq<SpanView>
    decreases rows.len(),
{
    if rows.len() == 0 {
        Seq::empty()
    } else {
        all_spans(rows.drop_last()) + rows.last().spans
    }
}

/// The smallest left edge among the spans of the rows; 0 without spans.
pub open spec fn rows_left(rows: Seq<RowView>) -> int {
    if all_spans(rows).len() == 0 {
        0
    } else {
        min_left(all_spans(rows))
    }
}

/// The largest right edge among the spans of the rows; 0 without spans.
pub open spec fn rows_right(rows: Seq<RowView>) -> int {
    if all_spans(rows).len() == 0 {
        0
    } else {
        max_right(all_spans(rows))
    }
}

/// The table that a region gives, if it gives one: its columns, found anew
/// among its rows, must be as many as a table needs and no more than it may
/// have, and the region must not read as a list.
pub open spec fn table_of(rows: Seq<RowView>, c: TableDetectorConfig) -> Option<TableView> {
    let columns = column_edges(rows, c);
    if rows.len() == 0 || columns.len() < c.min_columns || columns.len() > c.max_columns
        || is_list(rows, columns) {
        None
    } else {
        Some(
            TableView {
                top_y: rows[0].y,
                bottom_y: rows.last().y,
                left_x: rows_left(rows),
                right_x: rows_right(rows),
                columns,
                rows,
            },
        )
    }
}

/// The tables that the first `n` regions give.
pub open spec fn tables_of(
    rows: Seq<RowView>,
    regions: Seq<(usize, usize)>,
    c: TableDetectorConfig,
    n: int,
) -> Seq<TableView>
    decreases n,
{
    if n <= 0 || n > regions.len() {
        Seq::empty()
    } else {
        let before = tables_of(rows, regions, c, n - 1);
        let (first, last) = regions[n - 1];
        match table_of(rows.subrange(first as int, last + 1), c) {
            Some(t) => before.push(t),
            None => before,
        }
    }
}

/// Two spans are taken for the same: the same text, and left edges and
/// baselines less than a tenth of a point apart.
pub open spec fn same_span(a: SpanView, b: SpanView) -> bool {
    abs(a.x - b.x) < 100 && abs(a.y - b.y) < 100 && a.text == b.text
}

/// All spans of the tables, table after table.
pub open spec fn table_spans(tables: Seq<TableView>) -> Seq<SpanView>
    decreases tables.len(),
{
    if tables.len() == 0 {
        Seq::empty()
    } else {
        table_spans(tables.drop_last()) + all_spans(tables.last().rows)
    }
}

/// Some span among `taken` is the same as `s`.
pub open spec fn is_among(s: SpanView, taken: Seq<SpanView>) -> bool {
    exists|j: int| 0 <= j < taken.len() && same_span(s, #[trigger] taken[j])
}

/// Some table claims the span.
pub open spec fn claimed(s: SpanView, tables: Seq<TableView>) -> bool {
    is_among(s, table_spans(tables))
}

/// The spans that no table claims, in their order.
pub open spec fn unclaimed(spans: Seq<SpanView>, tables: Seq<TableView>) -> Seq<SpanView>
    decreases spans.len(),
{
    if spans.len() == 0 {
        Seq::empty()
    } else if claimed(spans.last(), tables) {
        unclaimed(spans.drop_last(), tables)
    } else {
        unclaimed(spans.drop_last(), tables).push(spans.last())
    }
}

/// The tables of a page. There is none where the page has fewer spans than
/// the smallest table, fewer rows than a table needs, fewer column edges
/// than a table needs, or no region.
pub open spec fn detected_tables(spans: Seq<SpanView>, c: TableDetectorConfig) -> Seq<TableView> {
    let rows = rows_of(spans, c.y_tolerance_factor as int);
    let columns = column_edges(rows, c);
    let regions = table_regions(rows, columns, c);
    if spans.len() < c.min_rows * c.min_columns || rows.len() < c.min_rows || columns.len()
        < c.min_columns {
        Seq::empty()
    } else {
        tables_of(rows, regions, c, regions.len() as int)
    }
}

/// Finds tables among the spans of a page.
#[derive(Debug, Clone, Copy)]
pub struct TableDetector {
    config: TableDetectorConfig,
}

fn bucket(x: i32) -> (b: i64)
    ensures
        b == bucket_of(x as int),
        -429497 <= b <= 429497,
{
    let x = x as i64;
    if x >= 0 {
        (x + 2500) / 5000
    } else {
        -((-x + 2500) / 5000)
    }
}

/// Every bucket lies in the range that left edges give.
pub open spec fn buckets_bounded(buckets: Seq<i64>) -> bool {
    forall|i: int| 0 <= i < buckets.len() ==> -429497 <= #[trigger] buckets[i] <= 429497
}

fn make_row(spans: Vec<TextSpan>) -> (r: TableRowData)
    ensures
        r@ == row_of(span_views(spans@)),
{
    let ghost views = span_views(spans@);
    let n = spans.len();
    if n == 0 {
        return TableRowData { y: 0, spans };
    }
    let mut sum: i128 = 0;
    let mut i: usize = 0;
    while i < n
        invariant
            i <= n,
            n == spans.len(),
            views == span_views(spans@),
            sum == sum_of_y(views.take(i as int)),
            -0x8000_0000 * i <= sum <= 0x8000_0000 * i,
        decreases n - i,
    {
        assert(views.take(i + 1).drop_last() == views.take(i as int));
        sum = sum + spans[i].y as i128;
        i += 1;
    }
    assert(views.take(n as int) == views);
    let y = clamp_wide_to_i32(div_trunc_wide(sum, n as i128));
    TableRowData { y, spans }
}

fn count_voters(rows: &Vec<TableRowData>, simple: bool) -> (r: usize)
    ensures
        r == voters(row_views(rows@), simple),
{
    let ghost views = row_views(rows@);
    let mut count: usize = 0;
    let mut i: usize = 0;
    while i < rows.len()
        invariant
            i <= rows.len(),
            views == row_views(rows@),
            count == voters(views.take(i as int), simple),
            count <= i,
        decreases rows.len() - i,
    {
        assert(views.take(i + 1).drop_last() == views.take(i as int));
        assert(views[i as int] == rows@[i as int]@);
        if simple || rows[i].spans.len() >= 2 {
            count += 1;
        }
        i += 1;
    }
    assert(views.take(rows.len() as int) == views);
    count
}

fn row_buckets(spans: &Vec<TextSpan>) -> (r: Vec<i64>)
    ensures
        r@ == span_buckets(span_views(spans@)),
        buckets_bounded(r@),
{
    let mut r: Vec<i64> = Vec::new();
    let mut i: usize = 0;
    while i < spans.len()
        invariant
            i <= spans.len(),
            r@ == span_buckets(span_views(spans@)).take(i as int),
            buckets_bounded(r@),
        decreases spans.len() - i,
    {
        r.push(bucket(spans[i].x));
        i += 1;
    }
    assert(span_buckets(span_views(spans@)).take(spans.len() as int) =~= span_buckets(
        span_views(spans@),
    ));
    r
}

fn collect_buckets(rows: &Vec<TableRowData>, simple: bool) -> (r: Vec<i64>)
    ensures
        r@ == all_buckets(row_views(rows@), simple),
        buckets_bounded(r@),
{
    let ghost views = row_views(rows@);
    let mut all: Vec<i64> = Vec::new();
    let mut i: usize = 0;
    while i < rows.len()
        invariant
            i <= rows.len(),
            views == row_views(rows@),
            all@ == all_buckets(views.take(i as int), simple),
            buckets_bounded(all@),
        decreases rows.len() - i,
    {
        assert(views.take(i + 1).drop_last() == views.take(i as int));
        assert(views[i as int] == rows@[i as int]@);
        if simple || rows[i].spans.len() >= 2 {
            let own = row_buckets(&rows[i].spans);
            let ghost before = all@;
            let mut k: usize = 0;
            while k < own.len()
                invariant
                    k <= own.len(),
                    all@ == before + own@.take(k as int),
                    buckets_bounded(before),
                    buckets_bounded(own@),
                    buckets_bounded(all@),
                decreases own.len() - k,
            {
                all.push(own[k]);
                assert(all@ =~= before + own@.take(k + 1));
                k += 1;
            }
            assert(own@.take(own.len() as int) == own@);
        }
        i += 1;
    }
    assert(views.take(rows.len() as int) == views);
    all
}

fn sort_buckets(buckets: &Vec<i64>) -> (r: Vec<i64>)
    requires
        buckets_bounded(buckets@),
    ensures
        r@ == sorted_buckets(buckets@),
        buckets_bounded(r@),
{
    let mut keys: Vec<Key> = Vec::new();
    let mut i: usize = 0;
    while i < buckets.len()
        invariant
            i <= buckets.len(),
            keys@ == bucket_keys(buckets@).take(i as int),
        decreases buckets.len() - i,
    {
        keys.push((buckets[i], 0i64));
        i += 1;
    }
    assert(bucket_keys(buckets@).take(buckets.len() as int) =~= bucket_keys(buckets@));
    let order = sorted_order(&keys);
    let ghost expected = sorted_buckets(buckets@);
    assert(expected.len() == order.len()) by {
        assert(as_ints(order@).len() == order.len());
    }
    let mut r: Vec<i64> = Vec::new();
    let mut k: usize = 0;
    while k < order.len()
        invariant
            k <= order.len(),
            order.len() == buckets.len(),
            as_ints(order@) == sort_order(bucket_keys(buckets@)),
            expected == sorted_buckets(buckets@),
            forall|j: int| 0 <= j < order.len() ==> #[trigger] order@[j] < buckets.len(),
            buckets_bounded(buckets@),
            r@ == expected.take(k as int),
            buckets_bounded(r@),
        decreases order.len() - k,
    {
        assert(as_ints(order@)[k as int] == order@[k as int] as int);
        r.push(buckets[order[k]]);
        assert(r@ =~= expected.take(k + 1));
        k += 1;
    }
    assert(expected.take(order.len() as int) =~= expected);
    r
}

fn count_in(buckets: &Vec<i64>, b: i64) -> (r: usize)
    ensures
        r == occurrences(buckets@, b),
        r <= buckets.len(),
{
    let mut count: usize = 0;
    let mut i: usize = 0;
    while i < buckets.len()
        invariant
            i <= buckets.len(),
            count == occurrences(buckets@.take(i as int), b),
            count <= i,
        decreases buckets.len() - i,
    {
        assert(buckets@.take(i + 1).drop_last() == buckets@.take(i as int));
        if buckets[i] == b {
            count += 1;
        }
        i += 1;
    }
    assert(buckets@.take(buckets.len() as int) == buckets@);
    count
}

fn count_votes(rows: &Vec<TableRowData>, simple: bool, b: i64) -> (r: u128)
    ensures
        r == votes(row_views(rows@), simple, b),
{
    let ghost views = row_views(rows@);
    let mut total: u128 = 0;
    let mut i: usize = 0;
    while i < rows.len()
        invariant
            i <= rows.len(),
            views == row_views(rows@),
            total == votes(views.take(i as int), simple, b),
            total <= i * 0xFFFF_FFFF_FFFF_FFFF,
        decreases rows.len() - i,
    {
        assert(views.take(i + 1).drop_last() == views.take(i as int));
        assert(views[i as int] == rows@[i as int]@);
        if simple || rows[i].spans.len() >= 2 {
            let own = row_buckets(&rows[i].spans);
            let n = count_in(&own, b);
            if simple {
                total = total + n as u128;
            } else if n > 0 {
                total = total + 1;
            }
        }
        i += 1;
    }
    assert(views.take(rows.len() as int) == views);
    total
}

fn needed_votes(voters: usize, ratio: i32) -> (r: u128)
    ensures
        r == votes_needed(voters as int, ratio as int),
{
    let share: u128 = if ratio <= 0 {
        0
    } else {
        assert(0 <= voters * ratio <= 0xFFFF_FFFF_FFFF_FFFF * 0x7FFF_FFFF) by (nonlinear_arith)
            requires
                0 <= voters <= 0xFFFF_FFFF_FFFF_FFFF,
                0 < ratio <= 0x7FFF_FFFF,
        ;
        (voters as u128) * (ratio as u128) / 1000
    };
    if share > 2 {
        share
    } else {
        2
    }
}

impl TableDetector {
    /// A detector with the default configuration.
    pub fn new() -> (r: TableDetector)
        ensures
            r.config() == default_config(),
    {
        TableDetector { config: TableDetectorConfig::default() }
    }

    /// A detector with the given configuration.
    pub fn with_config(config: TableDetectorConfig) -> (r: TableDetector)
        ensures
            r.config() == config,
    {
        TableDetector { config }
    }

    /// The configuration of the detector.
    pub closed spec fn config(&self) -> TableDetectorConfig {
        self.config
    }

    /// Groups the spans into rows by baseline; see [`rows_of`].
    pub fn group_into_rows(&self, spans: &Vec<TextSpan>) -> (r: Vec<TableRowData>)
        ensures
            row_views(r@) == rows_of(span_views(spans@), self.config().y_tolerance_factor as int),
    {
        let sorted = sort_spans_for_reading(spans);
        let groups = group_by_baseline(&sorted, self.config.y_tolerance_factor);
        let ghost expected = rows_of(span_views(spans@), self.config.y_tolerance_factor as int);
        let mut rows: Vec<TableRowData> = Vec::new();
        let mut i: usize = 0;
        while i < groups.len()
            invariant
                i <= groups.len(),
                expected == group_views(groups@).map_values(|g: Seq<SpanView>| row_of(g)),
                row_views(rows@) == expected.take(i as int),
            decreases groups.len() - i,
        {
            let ghost before = row_views(rows@);
            let row = make_row(duplicate_spans(&groups[i]));
            rows.push(row);
            assert(row_views(rows@) =~= before.push(row@));
            assert(row_views(rows@) =~= expected.take(i + 1));
            i += 1;
        }
        assert(expected.take(groups.len() as int) =~= expected);
        rows
    }

    fn edges(&self, rows: &Vec<TableRowData>, simple: bool) -> (r: Vec<i64>)
        ensures
            r@ == edges_by(row_views(rows@), simple, self.config()),
    {
        let ghost views = row_views(rows@);
        let buckets = collect_buckets(rows, simple);
        let sorted = sort_buckets(&buckets);
        let needed = needed_votes(count_voters(rows, simple), self.config.min_alignment_ratio);
        let gap = self.config.min_column_gap as i64;
        let mut kept: Vec<i64> = Vec::new();
        let mut k: usize = 0;
        while k < sorted.len()
            invariant
                k <= sorted.len(),
                views == row_views(rows@),
                buckets_bounded(sorted@),
                gap == self.config().min_column_gap,
                kept@ == edges_among(sorted@.take(k as int), views, simple, needed as int, gap as int),
                forall|j: int|
                    0 <= j < kept.len() ==> -429497 * 5000 <= #[trigger] kept@[j] <= 429497 * 5000,
            decreases sorted.len() - k,
        {
            assert(sorted@.take(k + 1).drop_last() == sorted@.take(k as int));
            let b = sorted[k];
            let repeated = k >= 1 && sorted[k - 1] == b;
            if !repeated {
                let v = count_votes(rows, simple, b);
                if v >= needed {
                    let edge: i64 = b * 5000;
                    if kept.len() == 0 || edge - kept[kept.len() - 1] >= gap {
                        kept.push(edge);
                    }
                }
            }
            k += 1;
        }
        assert(sorted@.take(sorted.len() as int) == sorted@);
        kept
    }

    /// Finds the column edges that the rows vote for; see [`column_edges`].
    pub fn detect_columns(&self, rows: &Vec<TableRowData>) -> (r: Vec<i64>)
        ensures
            r@ == column_edges(row_views(rows@), self.config()),
    {
        if rows.len() == 0 {
            return Vec::new();
        }
        if count_voters(rows, false) < self.config.min_rows {
            self.detect_columns_simple(rows)
        } else {
            self.edges(rows, false)
        }
    }

    /// Finds column edges with every span as a vote.
    pub fn detect_columns_simple(&self, rows: &Vec<TableRowData>) -> (r: Vec<i64>)
        ensures
            r@ == if rows@.len() == 0 {
                Seq::empty()
            } else {
                edges_by(row_views(rows@), true, self.config())
            },
    {
        if rows.len() == 0 {
            return Vec::new();
        }
        self.edges(rows, true)
    }
}

fn is_near_edge(span: &TextSpan, columns: &Vec<i64>) -> (r: bool)
    ensures
        r == near_edge(span@, columns@),
{
    let mut k: usize = 0;
    while k < columns.len()
        invariant
            k <= columns.len(),
            forall|j: int| 0 <= j < k ==> !(abs(span@.x - #[trigger] columns@[j]) <= 5000),
        decreases columns.len() - k,
    {
        let d: i128 = span.x as i128 - columns[k] as i128;
        if -5000 <= d && d <= 5000 {
            return true;
        }
        k += 1;
    }
    false
}

fn count_aligned(spans: &Vec<TextSpan>, columns: &Vec<i64>) -> (r: usize)
    ensures
        r == aligned_spans(span_views(spans@), columns@),
        r <= spans.len(),
{
    let ghost views = span_views(spans@);
    let mut count: usize = 0;
    let mut i: usize = 0;
    while i < spans.len()
        invariant
            i <= spans.len(),
            views == span_views(spans@),
            count == aligned_spans(views.take(i as int), columns@),
            count <= i,
        decreases spans.len() - i,
    {
        assert(views.take(i + 1).drop_last() == views.take(i as int));
        assert(views[i as int] == spans@[i as int]@);
        if is_near_edge(&spans[i], columns) {
            count += 1;
        }
        i += 1;
    }
    assert(views.take(spans.len() as int) == views);
    count
}

/// Finds the runs of flags set that are at least `min_rows` long.
fn find_runs(flags: &Vec<bool>, min_rows: usize) -> (r: Vec<(usize, usize)>)
    ensures
        r@ == regions_of(flags@, min_rows as int),
        forall|k: int|
            0 <= k < r.len() ==> (#[trigger] r@[k]).0 <= r@[k].1 && r@[k].1 < flags.len(),
{
    let n = flags.len();
    let mut regions: Vec<(usize, usize)> = Vec::new();
    let mut run: usize = 0;
    let mut i: usize = 0;
    while i < n
        invariant
            i <= n,
            n == flags.len(),
            run == run_before(flags@, i as int),
            run <= i,
            regions@ == closed_regions(flags@, min_rows as int, i as int),
            forall|k: int|
                0 <= k < regions.len() ==> (#[trigger] regions@[k]).0 <= regions@[k].1
                    && regions@[k].1 < flags.len(),
        decreases n - i,
    {
        if flags[i] {
            run += 1;
        } else {
            if run > 0 && run >= min_rows {
                regions.push((i - run, i - 1));
            }
            run = 0;
        }
        i += 1;
    }
    if run > 0 && run >= min_rows {
        regions.push((n - run, n - 1));
    }
    regions
}

/// The trimmed text is a bullet mark.
pub fn is_bullet_marker(text: &str) -> (r: bool)
    ensures
        r == is_bullet_text(text@),
{
    let t = trim_chars(&to_chars(text));
    if t.len() != 1 {
        return false;
    }
    let c = t[0];
    c == '-' || c == '\u{2013}' || c == '\u{2014}' || c == '\u{2022}' || c == '\u{00B7}' || c
        == '*' || c == '\u{25CB}' || c == '\u{25AA}' || c == '\u{25E6}' || c == '\u{25B8}' || c
        == '\u{25B9}' || c == '\u{25BA}' || c == '\u{25A0}' || c == '\u{25CF}' || c == '\u{203B}'
        || c == '\u{25A1}' || c == '\u{25C6}' || c == '\u{25C7}' || c == '\u{25B6}' || c
        == '\u{25B7}' || c == '\u{261E}' || c == '\u{27A4}' || c == '\u{279C}'
}

fn count_leading_digits(text: &Vec<char>, from: usize) -> (r: usize)
    requires
        from <= text.len(),
    ensures
        r == leading_digits(text@.subrange(from as int, text.len() as int)),
        from + r <= text.len(),
{
    let n = text.len();
    let mut i: usize = from;
    while i < n && '0' <= text[i] && text[i] <= '9'
        invariant
            from <= i <= n,
            n == text.len(),
            leading_digits(text@.subrange(from as int, n as int)) == (i - from) + leading_digits(
                text@.subrange(i as int, n as int),
            ),
        decreases n - i,
    {
        assert(text@.subrange(i as int, n as int).drop_first() == text@.subrange(i + 1, n as int));
        i += 1;
    }
    i - from
}

/// The text consists of its leading digits exactly when all its characters
/// are digits.
pub proof fn lemma_leading_digits_all(text: Seq<char>)
    ensures
        0 <= leading_digits(text) <= text.len(),
        leading_digits(text) == text.len() <==> all_digits(text),
    decreases text.len(),
{
    if text.len() > 0 && is_ascii_digit(text[0]) {
        let rest = text.drop_first();
        lemma_leading_digits_all(rest);
        if all_digits(rest) {
            assert forall|i: int| 0 <= i < text.len() implies is_ascii_digit(#[trigger] text[i]) by {
                if i > 0 {
                    assert(text[i] == rest[i - 1]);
                }
            }
        }
        if all_digits(text) {
            assert forall|i: int| 0 <= i < rest.len() implies is_ascii_digit(#[trigger] rest[i]) by {
                assert(rest[i] == text[i + 1]);
            }
        }
    } else if text.len() > 0 {
        assert(!is_ascii_digit(text[0]));
    }
}

/// The text marks a numbered item; see [`is_number_text`].
pub fn is_number_marker(text: &str) -> (r: bool)
    ensures
        r == is_number_text(text@),
{
    let t = strip_whitespace(&to_chars(text));
    assert(t@.subrange(0, t.len() as int) == t@);
    let d = count_leading_digits(&t, 0);
    if d > 0 && d < t.len() && t.len() - d == 1 && (t[d] == '.' || t[d] == ')') {
        return true;
    }
    if crate::text::parse_u32(&t).is_some() {
        return true;
    }
    t.len() == 2 && (('a' <= t[0] && t[0] <= 'z') || ('A' <= t[0] && t[0] <= 'Z')) && (t[1] == '.'
        || t[1] == ')')
}

/// The text is a bullet mark or marks a numbered item.
pub fn is_list_marker(text: &str) -> (r: bool)
    ensures
        r == (is_bullet_text(text@) || is_number_text(text@)),
{
    is_bullet_marker(text) || is_number_marker(text)
}

fn leftmost_span(spans: &Vec<TextSpan>) -> (r: usize)
    requires
        spans.len() > 0,
    ensures
        r == leftmost(span_views(spans@)),
        r < spans.len(),
{
    let ghost views = span_views(spans@);
    let mut best: usize = 0;
    let mut i: usize = 1;
    assert(views.take(1).len() <= 1);
    while i < spans.len()
        invariant
            1 <= i <= spans.len(),
            views == span_views(spans@),
            best == leftmost(views.take(i as int)),
            best < i,
        decreases spans.len() - i,
    {
        assert(views.take(i + 1).drop_last() == views.take(i as int));
        assert(views[i as int] == spans@[i as int]@);
        assert(views[best as int] == spans@[best as int]@);
        if spans[i].x < spans[best].x {
            best = i;
        }
        i += 1;
    }
    assert(views.take(spans.len() as int) == views);
    best
}

/// Copies of all spans of the rows, row after row.
pub fn collect_spans(rows: &Vec<TableRowData>) -> (r: Vec<TextSpan>)
    ensures
        span_views(r@) == all_spans(row_views(rows@)),
{
    let ghost views = row_views(rows@);
    let mut all: Vec<TextSpan> = Vec::new();
    let mut i: usize = 0;
    assert(span_views(all@) =~= all_spans(views.take(0)));
    while i < rows.len()
        invariant
            i <= rows.len(),
            views == row_views(rows@),
            span_views(all@) == all_spans(views.take(i as int)),
        decreases rows.len() - i,
    {
        assert(views.take(i + 1).drop_last() == views.take(i as int));
        assert(views[i as int] == rows@[i as int]@);
        let ghost before = span_views(all@);
        let ghost own = span_views(rows@[i as int].spans@);
        let mut k: usize = 0;
        while k < rows[i].spans.len()
            invariant
                k <= rows@[i as int].spans.len(),
                i < rows.len(),
                own == span_views(rows@[i as int].spans@),
                span_views(all@) == before + own.take(k as int),
            decreases rows@[i as int].spans.len() - k,
        {
            let ghost so_far = span_views(all@);
            let s = rows[i].spans[k].duplicate();
            all.push(s);
            assert(span_views(all@) =~= so_far.push(s@));
            assert(span_views(all@) =~= before + own.take(k + 1));
            k += 1;
        }
        assert(own.take(own.len() as int) == own);
        i += 1;
    }
    assert(views.take(rows.len() as int) == views);
    all
}

impl TableDetector {
    /// Tests how well a row keeps to the columns: returns the number of its
    /// spans that lie within 5 points of a column edge, and the number of
    /// its spans.
    pub fn calculate_alignment_score(&self, row: &TableRowData, columns: &Vec<i64>) -> (r: (
        usize,
        usize,
    ))
        ensures
            r.0 == aligned_spans(row@.spans, columns@),
            r.1 == row@.spans.len(),
    {
        (count_aligned(&row.spans, columns), row.spans.len())
    }

    fn keeps_to_columns(&self, row: &TableRowData, columns: &Vec<i64>) -> (r: bool)
        ensures
            r == row_aligned(row@, columns@, self.config().min_alignment_ratio as int),
    {
        let ratio = self.config.min_alignment_ratio;
        if row.spans.len() == 0 || columns.len() == 0 {
            return 0 >= ratio;
        }
        let aligned = count_aligned(&row.spans, columns);
        let n = row.spans.len();
        assert(-0x8000_0000 * 0xFFFF_FFFF_FFFF_FFFF <= ratio * n <= 0x8000_0000
            * 0xFFFF_FFFF_FFFF_FFFF) by (nonlinear_arith)
            requires
                -0x8000_0000 <= ratio <= 0x7FFF_FFFF,
                0 <= n <= 0xFFFF_FFFF_FFFF_FFFF,
        ;
        1000 * (aligned as i128) >= (ratio as i128) * (n as i128)
    }

    /// Finds the table regions: the runs of rows that keep to the columns;
    /// see [`table_regions`]. Each region is given by its first and its last
    /// row.
    pub fn find_table_regions(&self, rows: &Vec<TableRowData>, columns: &Vec<i64>) -> (r: Vec<
        (usize, usize),
    >)
        ensures
            r@ == table_regions(row_views(rows@), columns@, self.config()),
            forall|k: int|
                0 <= k < r.len() ==> (#[trigger] r@[k]).0 <= r@[k].1 && r@[k].1 < rows.len(),
    {
        if rows.len() == 0 || columns.len() < self.config.min_columns {
            return Vec::new();
        }
        let ghost views = row_views(rows@);
        let ghost expected = alignment_flags(
            views,
            columns@,
            self.config.min_alignment_ratio as int,
        );
        let mut flags: Vec<bool> = Vec::new();
        let mut i: usize = 0;
        while i < rows.len()
            invariant
                i <= rows.len(),
                views == row_views(rows@),
                expected == alignment_flags(
                    views,
                    columns@,
                    self.config().min_alignment_ratio as int,
                ),
                flags@ == expected.take(i as int),
            decreases rows.len() - i,
        {
            assert(views[i as int] == rows@[i as int]@);
            flags.push(self.keeps_to_columns(&rows[i], columns));
            assert(flags@ =~= expected.take(i + 1));
            i += 1;
        }
        assert(expected.take(rows.len() as int) =~= expected);
        find_runs(&flags, self.config.min_rows)
    }

    /// Tests whether a region reads as a list rather than a table; see
    /// [`is_list`].
    pub fn is_list_pattern(&self, rows: &Vec<TableRowData>, columns: &Vec<i64>) -> (r: bool)
        ensures
            r == is_list(row_views(rows@), columns@),
    {
        if columns.len() < 2 || rows.len() == 0 {
            return false;
        }
        let ghost views = row_views(rows@);
        let mut bullets: usize = 0;
        let mut numbers: usize = 0;
        let mut i: usize = 0;
        while i < rows.len()
            invariant
                i <= rows.len(),
                views == row_views(rows@),
                bullets == bullet_rows(views.take(i as int)),
                numbers == number_rows(views.take(i as int)),
                bullets + numbers <= i,
            decreases rows.len() - i,
        {
            assert(views.take(i + 1).drop_last() == views.take(i as int));
            assert(views[i as int] == rows@[i as int]@);
            if rows[i].spans.len() > 0 {
                let at = leftmost_span(&rows[i].spans);
                assert(views[i as int].spans[at as int] == rows@[i as int].spans@[at as int]@);
                let text = rows[i].spans[at].text.as_str();
                if is_bullet_marker(text) {
                    bullets += 1;
                } else if is_number_marker(text) {
                    numbers += 1;
                }
            }
            i += 1;
        }
        assert(views.take(rows.len() as int) == views);
        let n = rows.len() as u128;
        if 2 * (bullets as u128) >= n {
            return true;
        }
        columns.len() == 2 && 2 * (bullets as u128 + numbers as u128) >= n
    }
}

/// Without tables, no span is claimed.
pub proof fn lemma_unclaimed_without_tables(spans: Seq<SpanView>)
    ensures
        unclaimed(spans, Seq::empty()) == spans,
    decreases spans.len(),
{
    if spans.len() > 0 {
        lemma_unclaimed_without_tables(spans.drop_last());
        assert(table_spans(Seq::<TableView>::empty()).len() == 0);
        assert(!claimed(spans.last(), Seq::empty()));
        assert(spans.drop_last().push(spans.last()) =~= spans);
    }
}

/// No table of a page is a region that reads as a list.
pub proof fn lemma_tables_are_no_lists(spans: Seq<SpanView>, c: TableDetectorConfig)
    ensures
        forall|t: int|
            0 <= t < detected_tables(spans, c).len() ==> !is_list(
                (#[trigger] detected_tables(spans, c)[t]).rows,
                detected_tables(spans, c)[t].columns,
            ),
{
    let rows = rows_of(spans, c.y_tolerance_factor as int);
    let columns = column_edges(rows, c);
    let regions = table_regions(rows, columns, c);
    lemma_region_tables_are_no_lists(rows, regions, c, regions.len() as int);
}

proof fn lemma_region_tables_are_no_lists(
    rows: Seq<RowView>,
    regions: Seq<(usize, usize)>,
    c: TableDetectorConfig,
    n: int,
)
    ensures
        forall|t: int|
            0 <= t < tables_of(rows, regions, c, n).len() ==> !is_list(
                (#[trigger] tables_of(rows, regions, c, n)[t]).rows,
                tables_of(rows, regions, c, n)[t].columns,
            ),
    decreases n,
{
    if 0 < n <= regions.len() {
        lemma_region_tables_are_no_lists(rows, regions, c, n - 1);
        let before = tables_of(rows, regions, c, n - 1);
        let now = tables_of(rows, regions, c, n);
        assert forall|t: int| 0 <= t < now.len() implies !is_list(
            (#[trigger] now[t]).rows,
            now[t].columns,
        ) by {
            if t < before.len() {
                assert(now[t] == before[t]);
            }
        }
    }
}

/// No span that is left over is the same as a span of a table: what a table
/// takes does not reach the paragraphs.
pub proof fn lemma_unclaimed_apart_from_tables(spans: Seq<SpanView>, tables: Seq<TableView>)
    ensures
        forall|i: int|
            0 <= i < unclaimed(spans, tables).len() ==> !claimed(
                #[trigger] unclaimed(spans, tables)[i],
                tables,
            ),
    decreases spans.len(),
{
    if spans.len() > 0 {
        lemma_unclaimed_apart_from_tables(spans.drop_last(), tables);
        let before = unclaimed(spans.drop_last(), tables);
        let now = unclaimed(spans, tables);
        assert forall|i: int| 0 <= i < now.len() implies !claimed(#[trigger] now[i], tables) by {
            if i < before.len() {
                assert(now[i] == before[i]);
            }
        }
    }
}

fn same_text(a: &TextSpan, b: &TextSpan) -> (r: bool)
    ensures
        r == (a@.text == b@.text),
{
    crate::text::same_str(a.text.as_str(), b.text.as_str())
}

fn is_taken(span: &TextSpan, taken: &Vec<TextSpan>) -> (r: bool)
    ensures
        r == is_among(span@, span_views(taken@)),
{
    let ghost views = span_views(taken@);
    let mut j: usize = 0;
    while j < taken.len()
        invariant
            j <= taken.len(),
            views == span_views(taken@),
            forall|k: int| 0 <= k < j ==> !same_span(span@, #[trigger] views[k]),
        decreases taken.len() - j,
    {
        assert(views[j as int] == taken@[j as int]@);
        if distance(span.x, taken[j].x) < 100 && distance(span.y, taken[j].y) < 100 && same_text(
            span,
            &taken[j],
        ) {
            return true;
        }
        j += 1;
    }
    false
}

fn rows_between(rows: &Vec<TableRowData>, first: usize, last: usize) -> (r: Vec<TableRowData>)
    requires
        first <= last < rows.len(),
    ensures
        row_views(r@) == row_views(rows@).subrange(first as int, last + 1),
{
    let ghost expected = row_views(rows@).subrange(first as int, last + 1);
    let mut r: Vec<TableRowData> = Vec::new();
    let mut i: usize = first;
    while i <= last
        invariant
            first <= i <= last + 1,
            last < rows.len(),
            expected == row_views(rows@).subrange(first as int, last + 1),
            row_views(r@) == expected.take(i - first),
        decreases last + 1 - i,
    {
        let ghost before = row_views(r@);
        let row = rows[i].duplicate();
        r.push(row);
        assert(row_views(r@) =~= before.push(row@));
        assert(row_views(r@) =~= expected.take(i - first + 1));
        i += 1;
    }
    assert(expected.take(last + 1 - first) =~= expected);
    r
}

fn append_copies(dst: &mut Vec<TextSpan>, src: &Vec<TextSpan>)
    ensures
        span_views(final(dst)@) == span_views(old(dst)@) + span_views(src@),
{
    let ghost start = span_views(dst@);
    let mut j: usize = 0;
    assert(span_views(dst@) =~= start + span_views(src@).take(0));
    while j < src.len()
        invariant
            j <= src.len(),
            span_views(dst@) == start + span_views(src@).take(j as int),
        decreases src.len() - j,
    {
        let ghost so_far = span_views(dst@);
        let s = src[j].duplicate();
        dst.push(s);
        assert(span_views(dst@) =~= so_far.push(s@));
        assert(span_views(dst@) =~= start + span_views(src@).take(j + 1));
        j += 1;
    }
    assert(span_views(src@).take(src.len() as int) == span_views(src@));
}

fn keep_table(tables: &mut Vec<DetectedTable>, taken: &mut Vec<TextSpan>, table: DetectedTable)
    requires
        span_views(old(taken)@) == table_spans(table_views(old(tables)@)),
    ensures
        table_views(final(tables)@) == table_views(old(tables)@).push(table@),
        span_views(final(taken)@) == table_spans(table_views(final(tables)@)),
{
    let ghost before = table_views(tables@);
    let own = collect_spans(&table.rows);
    append_copies(taken, &own);
    tables.push(table);
    assert(table_views(tables@) =~= before.push(table@));
    assert(table_views(tables@).drop_last() =~= before);
}

impl TableDetector {
    fn make_table(&self, rows: Vec<TableRowData>) -> (r: Option<DetectedTable>)
        ensures
            match r {
                Some(t) => table_of(row_views(rows@), self.config()) == Some(t@),
                None => table_of(row_views(rows@), self.config()) is None,
            },
    {
        if rows.len() == 0 {
            return None;
        }
        let columns = self.detect_columns(&rows);
        if columns.len() < self.config.min_columns || columns.len() > self.config.max_columns {
            return None;
        }
        if self.is_list_pattern(&rows, &columns) {
            return None;
        }
        let all = collect_spans(&rows);
        let (left_x, right_x) = if all.len() == 0 {
            (0i64, 0i64)
        } else {
            text_extent(&all)
        };
        let top_y = rows[0].y;
        let bottom_y = rows[rows.len() - 1].y;
        assert(row_views(rows@)[0] == rows@[0]@);
        assert(row_views(rows@).last() == rows@[rows.len() - 1]@);
        Some(DetectedTable { top_y, bottom_y, left_x, right_x, columns, rows })
    }

    /// Finds the tables among the spans of a page. Returns the tables, top
    /// to bottom, and the spans that no table claims, in their order.
    ///
    /// A table is a run of rows that keep to the column edges of the page,
    /// with column edges of its own in the number the configuration allows,
    /// that does not read as a list; see [`detected_tables`]. A span is
    /// claimed where it is the same as a span of a table; see [`unclaimed`].
    pub fn detect(&self, spans: Vec<TextSpan>) -> (r: (Vec<DetectedTable>, Vec<TextSpan>))
        ensures
            table_views(r.0@) == detected_tables(span_views(spans@), self.config()),
            span_views(r.1@) == unclaimed(
                span_views(spans@),
                detected_tables(span_views(spans@), self.config()),
            ),
    {
        let ghost views = span_views(spans@);
        let ghost c = self.config;
        let mut tables: Vec<DetectedTable> = Vec::new();
        assert(table_views(tables@) =~= Seq::<TableView>::empty());
        proof {
            lemma_unclaimed_without_tables(views);
        }
        let min_rows = self.config.min_rows;
        let min_columns = self.config.min_columns;
        assert(0 <= min_rows * min_columns <= 0xFFFF_FFFF_FFFF_FFFF * 0xFFFF_FFFF_FFFF_FFFF)
            by (nonlinear_arith)
            requires
                0 <= min_rows <= 0xFFFF_FFFF_FFFF_FFFF,
                0 <= min_columns <= 0xFFFF_FFFF_FFFF_FFFF,
        ;
        let least = (min_rows as u128) * (min_columns as u128);
        if (spans.len() as u128) < least {
            return (tables, spans);
        }
        let rows = self.group_into_rows(&spans);
        if rows.len() < self.config.min_rows {
            return (tables, spans);
        }
        let columns = self.detect_columns(&rows);
        if columns.len() < self.config.min_columns {
            return (tables, spans);
        }
        let regions = self.find_table_regions(&rows, &columns);
        let ghost row_vs = row_views(rows@);
        let mut taken: Vec<TextSpan> = Vec::new();
        assert(span_views(taken@) =~= table_spans(Seq::<TableView>::empty()));
        let mut k: usize = 0;
        while k < regions.len()
            invariant
                k <= regions.len(),
                row_vs == row_views(rows@),
                c == self.config(),
                forall|j: int|
                    0 <= j < regions.len() ==> (#[trigger] regions@[j]).0 <= regions@[j].1
                        && regions@[j].1 < rows.len(),
                table_views(tables@) == tables_of(row_vs, regions@, c, k as int),
                span_views(taken@) == table_spans(table_views(tables@)),
            decreases regions.len() - k,
        {
            let (first, last) = regions[k];
            let part = rows_between(&rows, first, last);
            let ghost before = table_views(tables@);
            let ghost taken_before = span_views(taken@);
            match self.make_table(part) {
                Some(table) => {
                    keep_table(&mut tables, &mut taken, table);
                },
                None => {},
            }
            k += 1;
        }
        let ghost found = table_views(tables@);
        let mut rest: Vec<TextSpan> = Vec::new();
        let mut i: usize = 0;
        assert(span_views(rest@) =~= unclaimed(views.take(0), found));
        while i < spans.len()
            invariant
                i <= spans.len(),
                views == span_views(spans@),
                span_views(taken@) == table_spans(found),
                span_views(rest@) == unclaimed(views.take(i as int), found),
            decreases spans.len() - i,
        {
            assert(views.take(i + 1).drop_last() == views.take(i as int));
            assert(views[i as int] == spans@[i as int]@);
            if !is_taken(&spans[i], &taken) {
                let ghost before = span_views(rest@);
                let s = spans[i].duplicate();
                rest.push(s);
                assert(span_views(rest@) =~= before.push(s@));
            }
            i += 1;
        }
        assert(views.take(spans.len() as int) == views);
        (tables, rest)
    }
}

impl Default for TableDetector {
    fn default() -> (r: TableDetector)
        ensures
            r.config() == default_config(),
    {
        TableDetector::new()
    }
}

/// The right end of column `i`: the left edge of the next column, or a
/// hundred points beyond the right end of the table for the last column.
pub open spec fn column_end(columns: Seq<i64>, right_x: int, i: int) -> int {
    if i + 1 < columns.len() {
        columns[i + 1] as int
    } else {
        right_x + 100000
    }
}

/// The index of the first column whose range holds `x`: from ten points
/// left of its edge to ten points left of its end. The number of columns
/// where none does.
pub open spec fn first_column_around(columns: Seq<i64>, right_x: int, x: int, from: int) -> int
    decreases columns.len() - from,
{
    if from >= columns.len() {
        columns.len() as int
    } else if x >= columns[from] - 10000 && x < column_end(columns, right_x, from) - 10000 {
        from
    } else {
        first_column_around(columns, right_x, x, from + 1)
    }
}

/// The index of the column edge nearest to `x` among the first `n`; of
/// several at the same distance, the first.
pub open spec fn nearest_column(columns: Seq<i64>, x: int, n: int) -> int
    decreases n,
{
    if n <= 1 {
        0
    } else {
        let best = nearest_column(columns, x, n - 1);
        if abs(x - columns[n - 1]) < abs(x - columns[best]) {
            n - 1
        } else {
            best
        }
    }
}

/// The column that a span at `x` is put into: the first whose range holds
/// it, else the one with the nearest edge; column 0 without columns.
pub open spec fn column_for(columns: Seq<i64>, right_x: int, x: int) -> int {
    let i = first_column_around(columns, right_x, x, 0);
    if i < columns.len() {
        i
    } else {
        nearest_column(columns, x, columns.len() as int)
    }
}

/// The trimmed texts of the spans that are put into column `c`, in order.
pub open spec fn cell_parts(spans: Seq<SpanView>, columns: Seq<i64>, right_x: int, c: int) -> Seq<
    Seq<char>,
>
    decreases spans.len(),
{
    if spans.len() == 0 {
        Seq::empty()
    } else if column_for(columns, right_x, spans.last().x) == c {
        cell_parts(spans.drop_last(), columns, right_x, c).push(trim(spans.last().text))
    } else {
        cell_parts(spans.drop_last(), columns, right_x, c)
    }
}

/// The texts, joined by single spaces.
pub open spec fn joined_by_spaces(parts: Seq<Seq<char>>) -> Seq<char>
    decreases parts.len(),
{
    if parts.len() == 0 {
        Seq::empty()
    } else if parts.len() == 1 {
        parts[0]
    } else {
        joined_by_spaces(parts.drop_last()) + seq![' '] + parts.last()
    }
}

/// The text of the cell of a row in column `c`.
pub open spec fn cell_text(row: RowView, t: TableView, c: int) -> Seq<char> {
    joined_by_spaces(cell_parts(row.spans, t.columns, t.right_x, c))
}

/// The widths of the columns: from each edge to the next, and from the last
/// edge to the right end of the table.
pub open spec fn column_widths(columns: Seq<i64>, right_x: int) -> Seq<i64> {
    Seq::new(
        columns.len(),
        |i: int|
            clamp64(
                if i + 1 < columns.len() {
                    columns[i + 1] - columns[i]
                } else {
                    right_x - columns[i]
                },
            ) as i64,
    )
}

/// The model row is the row of the table: a cell for each column, with the
/// text of the spans put into it.
pub open spec fn is_row_of(row: TableRow, source: RowView, t: TableView, header: bool) -> bool {
    &&& row.is_header == header
    &&& row.cells@.len() == t.columns.len()
    &&& forall|c: int|
        0 <= c < t.columns.len() ==> is_text_cell(#[trigger] row.cells@[c], cell_text(source, t, c))
}

/// The model table is the detected table: its rows cell by cell, the first
/// row as header where there is more than one row, and the column widths.
pub open spec fn is_model_of(table: Table, t: TableView) -> bool {
    &&& table.header_rows == (if t.rows.len() > 1 {
        1u8
    } else {
        0u8
    })
    &&& table.caption is None
    &&& table.column_widths is Some
    &&& table.column_widths->0@ == column_widths(t.columns, t.right_x)
    &&& table.rows@.len() == t.rows.len()
    &&& forall|i: int|
        0 <= i < t.rows.len() ==> is_row_of(
            #[trigger] table.rows@[i],
            t.rows[i],
            t,
            i == 0 && t.rows.len() > 1,
        )
}

/// Finds the column that a span at `x` is put into; see [`column_for`].
pub fn find_column_for_span(x: i32, columns: &Vec<i64>, right_x: i64) -> (r: usize)
    ensures
        r == column_for(columns@, right_x as int, x as int),
        columns.len() > 0 ==> r < columns.len(),
{
    let n = columns.len();
    if n == 0 {
        return 0;
    }
    let wide: i128 = x as i128;
    let mut i: usize = 0;
    while i < n
        invariant
            i <= n,
            n == columns.len(),
            wide == x,
            first_column_around(columns@, right_x as int, x as int, 0) == first_column_around(
                columns@,
                right_x as int,
                x as int,
                i as int,
            ),
        decreases n - i,
    {
        let end: i128 = if i + 1 < n {
            columns[i + 1] as i128
        } else {
            right_x as i128 + 100000
        };
        if wide >= columns[i] as i128 - 10000 && wide < end - 10000 {
            return i;
        }
        i += 1;
    }
    let mut best: usize = 0;
    let mut k: usize = 1;
    while k < n
        invariant
            1 <= k <= n,
            n == columns.len(),
            wide == x,
            best < k,
            best == nearest_column(columns@, x as int, k as int),
        decreases n - k,
    {
        let d = wide - columns[k] as i128;
        let d = if d < 0 {
            -d
        } else {
            d
        };
        let b = wide - columns[best] as i128;
        let b = if b < 0 {
            -b
        } else {
            b
        };
        if d < b {
            best = k;
        }
        k += 1;
    }
    best
}

fn cell_for(row: &TableRowData, columns: &Vec<i64>, right_x: i64, c: usize) -> (r: String)
    ensures
        r@ == joined_by_spaces(cell_parts(row@.spans, columns@, right_x as int, c as int)),
{
    let ghost views = span_views(row.spans@);
    let mut out: Vec<char> = Vec::new();
    let mut parts: usize = 0;
    let mut i: usize = 0;
    while i < row.spans.len()
        invariant
            i <= row.spans.len(),
            views == span_views(row.spans@),
            parts == cell_parts(views.take(i as int), columns@, right_x as int, c as int).len(),
            parts <= i,
            out@ == joined_by_spaces(
                cell_parts(views.take(i as int), columns@, right_x as int, c as int),
            ),
        decreases row.spans.len() - i,
    {
        assert(views.take(i + 1).drop_last() == views.take(i as int));
        assert(views[i as int] == row.spans@[i as int]@);
        let ghost before = cell_parts(views.take(i as int), columns@, right_x as int, c as int);
        if find_column_for_span(row.spans[i].x, columns, right_x) == c {
            let t = trim_chars(&to_chars(row.spans[i].text.as_str()));
            let ghost so_far = out@;
            if parts > 0 {
                out.push(' ');
            }
            extend_chars(&mut out, &t);
            proof {
                assert(before.push(t@).drop_last() == before);
                if parts == 0 {
                    assert(out@ =~= t@);
                } else {
                    assert(out@ =~= so_far + seq![' '] + t@);
                }
            }
            parts += 1;
        }
        i += 1;
    }
    assert(views.take(row.spans.len() as int) == views);
    from_chars(&out)
}

fn widths_of(columns: &Vec<i64>, right_x: i64) -> (r: Vec<i64>)
    ensures
        r@ == column_widths(columns@, right_x as int),
{
    let n = columns.len();
    let mut r: Vec<i64> = Vec::new();
    let mut i: usize = 0;
    while i < n
        invariant
            i <= n,
            n == columns.len(),
            r@ == column_widths(columns@, right_x as int).take(i as int),
        decreases n - i,
    {
        let wide: i128 = if i + 1 < n {
            columns[i + 1] as i128 - columns[i] as i128
        } else {
            right_x as i128 - columns[i] as i128
        };
        let w: i64 = if wide < i64::MIN as i128 {
            i64::MIN
        } else if wide > i64::MAX as i128 {
            i64::MAX
        } else {
            wide as i64
        };
        r.push(w);
        assert(r@ =~= column_widths(columns@, right_x as int).take(i + 1));
        i += 1;
    }
    assert(column_widths(columns@, right_x as int).take(n as int) =~= column_widths(
        columns@,
        right_x as int,
    ));
    r
}

fn model_row(row: &TableRowData, detected: &DetectedTable, header: bool) -> (r: TableRow)
    ensures
        is_row_of(r, row@, detected@, header),
{
    let n = detected.columns.len();
    let mut cells: Vec<TableCell> = Vec::new();
    let mut c: usize = 0;
    while c < n
        invariant
            c <= n,
            n == detected.columns.len(),
            cells.len() == c,
            forall|k: int|
                0 <= k < c ==> is_text_cell(#[trigger] cells@[k], cell_text(row@, detected@, k)),
        decreases n - c,
    {
        let text = cell_for(row, &detected.columns, detected.right_x, c);
        cells.push(TableCell::text(text.as_str()));
        c += 1;
    }
    if header {
        TableRow::header(cells)
    } else {
        TableRow::new(cells)
    }
}

impl TableDetector {
    /// Turns a detected table into a table of the document model; see
    /// [`is_model_of`].
    pub fn to_table_model(&self, detected: &DetectedTable) -> (r: Table)
        ensures
            is_model_of(r, detected@),
    {
        let n = detected.rows.len();
        let header_rows: u8 = if n > 1 {
            1
        } else {
            0
        };
        let mut table = Table::with_header(header_rows);
        let ghost t = detected@;
        let mut i: usize = 0;
        while i < n
            invariant
                i <= n,
                n == detected.rows.len(),
                t == detected@,
                t.rows.len() == n,
                header_rows == (if n > 1 {
                    1u8
                } else {
                    0u8
                }),
                table.header_rows == header_rows,
                table.caption is None,
                table.column_widths is None,
                table.rows@.len() == i,
                forall|k: int|
                    0 <= k < i ==> is_row_of(
                        #[trigger] table.rows@[k],
                        t.rows[k],
                        t,
                        k == 0 && t.rows.len() > 1,
                    ),
            decreases n - i,
        {
            assert(t.rows[i as int] == detected.rows@[i as int]@);
            let row = model_row(&detected.rows[i], detected, i == 0 && header_rows > 0);
            let ghost before = table.rows@;
            table.add_row(row);
            assert forall|k: int| 0 <= k < i + 1 implies is_row_of(
                #[trigger] table.rows@[k],
                t.rows[k],
                t,
                k == 0 && t.rows.len() > 1,
            ) by {
                if k < i {
                    assert(table.rows@[k] == before[k]);
                }
            }
            i += 1;
        }
        table.column_widths = Some(widths_of(&detected.columns, detected.right_x));
        table
    }
}

} // verus!
