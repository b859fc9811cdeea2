//! What a renderer is asked to do.

use crate::error::Error;
use crate::render::cleanup::{CleanupOptions, CleanupPreset};
use crate::sorting::{sort_order, sorted_order, Key};
use crate::text::{
    parse_u32, parsed_u32, same_chars, slice_chars, strip_whitespace, to_chars,
    without_whitespace,
};
use std::ops::RangeInclusive;
use vstd::prelude::*;

verus! {

/// How a table is rendered that plain Markdown cannot express.
#[derive(Debug, Clone, Copy, PartialEq, Eq, Structural)]
pub enum TableFallback {
    /// As a Markdown table all the same; the default.
    Markdown,
    /// As an HTML table.
    Html,
    /// As an ASCII drawing.
    Ascii,
}

impl Default for TableFallback {
    fn default() -> (r: TableFallback)
        ensures
            r == TableFallback::Markdown,
    {
        TableFallback::Markdown
    }
}

/// Which pages are selected. Pages are numbered from 1.
#[derive(Debug)]
pub enum PageSelection {
    /// All pages.
    All,
    /// The pages of a range, both ends included.
    Range(RangeInclusive<u32>),
    /// The pages listed.
    Pages(Vec<u32>),
}

impl Default for PageSelection {
    fn default() -> (r: PageSelection)
        ensures
            r is All,
    {
        PageSelection::All
    }
}

/// The selection holds the page.
pub open spec fn selects(sel: PageSelection, page: u32) -> bool {
    match sel {
        PageSelection::All => true,
        PageSelection::Range(r) => r@.start <= page && if r@.exhausted {
            page < r@.end
        } else {
            page <= r@.end
        },
        PageSelection::Pages(pages) => pages@.contains(page),
    }
}

/// The parts of a text between the separators.
pub open spec fn split_at(text: Seq<char>, sep: char) -> Seq<Seq<char>>
    decreases text.len(),
{
    if text.len() == 0 {
        seq![Seq::empty()]
    } else {
        let parts = split_at(text.drop_last(), sep);
        if text.last() == sep {
            parts.push(Seq::empty())
        } else {
            parts.update(parts.len() - 1, parts.last().push(text.last()))
        }
    }
}

/// The index of the first `c` in the text, or the length of the text where
/// it has none.
pub open spec fn index_of(text: Seq<char>, c: char) -> int
    decreases text.len(),
{
    if text.len() == 0 || text[0] == c {
        0
    } else {
        1 + index_of(text.drop_first(), c)
    }
}

/// The list with `p` added at its end, unless it holds `p`.
pub open spec fn with_page(list: Seq<u32>, p: u32) -> Seq<u32> {
    if list.contains(p) {
        list
    } else {
        list.push(p)
    }
}

/// The list with the pages from `a` to `b` added, each unless the list
/// holds it.
pub open spec fn with_range(list: Seq<u32>, a: u32, b: u32) -> Seq<u32>
    decreases b - a + 1,
{
    if a > b {
        list
    } else if a == b {
        with_page(list, a)
    } else {
        with_range(with_page(list, a), (a + 1) as u32, b)
    }
}

/// The two numbers of a range `a-b`, if both are written well.
pub open spec fn range_ends(part: Seq<char>) -> Option<(u32, u32)> {
    let i = index_of(part, '-');
    match (parsed_u32(part.subrange(0, i)), parsed_u32(part.subrange(i + 1, part.len() as int))) {
        (Some(a), Some(b)) => Some((a, b)),
        _ => None,
    }
}

/// The list after one more part of a selection: a page or a range of
/// pages. Nothing where the part is not written well.
pub open spec fn with_part(list: Seq<u32>, part: Seq<char>) -> Option<Seq<u32>> {
    if part.contains('-') {
        match range_ends(part) {
            Some((a, b)) => Some(with_range(list, a, b)),
            None => None,
        }
    } else {
        match parsed_u32(part) {
            Some(p) => Some(with_page(list, p)),
            None => None,
        }
    }
}

/// The pages that the parts select, in the order in which they are first
/// named. Nothing where a part is not written well.
pub open spec fn listed_pages(parts: Seq<Seq<char>>) -> Option<Seq<u32>>
    decreases parts.len(),
{
    if parts.len() == 0 {
        Some(Seq::empty())
    } else {
        match listed_pages(parts.drop_last()) {
            Some(list) => with_part(list, parts.last()),
            None => None,
        }
    }
}

/// The keys that order pages ascending.
pub open spec fn page_keys(pages: Seq<u32>) -> Seq<Key> {
    pages.map_values(|p: u32| (p as i64, 0i64))
}

/// The pages in ascending order.
pub open spec fn ascending(pages: Seq<u32>) -> Seq<u32> {
    sort_order(page_keys(pages)).map_values(|i: int| pages[i])
}

/// What a selection string means.
pub enum Parsed {
    /// All pages.
    All,
    /// The pages from the first to the second number.
    Range(u32, u32),
    /// The pages listed, ascending, each once.
    Pages(Seq<u32>),
    /// Nothing: the string is not written well, for the reason given.
    Invalid(Seq<char>),
}

/// What a selection string means, whitespace aside: nothing or `all` selects
/// all pages; `a-b` a range; and a list of pages and ranges, separated by
/// commas, the pages they name.
pub open spec fn parsed_selection(s: Seq<char>) -> Parsed {
    let t = without_whitespace(s);
    if t.len() == 0 || t == seq!['a', 'l', 'l'] {
        Parsed::All
    } else if t.contains('-') && !t.contains(',') {
        let i = index_of(t, '-');
        match parsed_u32(t.subrange(0, i)) {
            None => Parsed::Invalid("Invalid start page"@),
            Some(a) => match parsed_u32(t.subrange(i + 1, t.len() as int)) {
                None => Parsed::Invalid("Invalid end page"@),
                Some(b) => Parsed::Range(a, b),
            },
        }
    } else {
        match listed_pages(split_at(t, ',')) {
            Some(list) => Parsed::Pages(ascending(list)),
            None => Parsed::Invalid("Invalid page number"@),
        }
    }
}

/// The selection is what the string means.
pub open spec fn is_parsed(sel: PageSelection, p: Parsed) -> bool {
    match p {
        Parsed::All => sel is All,
        Parsed::Range(a, b) => sel matches PageSelection::Range(r) && r@.start == a && r@.end == b
            && !r@.exhausted,
        Parsed::Pages(list) => sel matches PageSelection::Pages(v) && v@ == list,
        Parsed::Invalid(_) => false,
    }
}

/// Two selections hold the same pages in the same form.
pub open spec fn same_selection(a: PageSelection, b: PageSelection) -> bool {
    match b {
        PageSelection::All => a is All,
        PageSelection::Range(r) => a matches PageSelection::Range(q) && q == r,
        PageSelection::Pages(v) => a matches PageSelection::Pages(w) && w@ == v@,
    }
}

/// The same pages are in two selections that are the same.
pub proof fn lemma_same_selection_selects(a: PageSelection, b: PageSelection, page: u32)
    requires
        same_selection(a, b),
    ensures
        selects(a, page) == selects(b, page),
{
}

/// A copy of the selection.
pub fn duplicate_selection(sel: &PageSelection) -> (r: PageSelection)
    ensures
        same_selection(r, *sel),
{
    match sel {
        PageSelection::All => PageSelection::All,
        PageSelection::Range(range) => PageSelection::Range(copy_range(range)),
        PageSelection::Pages(pages) => {
            let mut v: Vec<u32> = Vec::new();
            let mut i: usize = 0;
            while i < pages.len()
                invariant
                    i <= pages.len(),
                    v@ == pages@.take(i as int),
                decreases pages.len() - i,
            {
                v.push(pages[i]);
                i += 1;
            }
            assert(pages@.take(pages.len() as int) == pages@);
            PageSelection::Pages(v)
        },
    }
}

impl Clone for PageSelection {
    fn clone(&self) -> (r: PageSelection)
        ensures
            same_selection(r, *self),
    {
        duplicate_selection(self)
    }
}

/// `RangeInclusive::<u32>::clone`. Not proved: that the copy equals the
/// range.
#[verifier::external_body]
fn copy_range(range: &RangeInclusive<u32>) -> (r: RangeInclusive<u32>)
    ensures
        r == *range,
{
    range.clone()
}

fn find_char(text: &Vec<char>, c: char) -> (r: usize)
    ensures
        r == index_of(text@, c),
        r <= text.len(),
        r < text.len() <==> text@.contains(c),
{
    let n = text.len();
    let mut i: usize = 0;
    assert(text@.subrange(0, n as int) == text@);
    while i < n
        invariant
            i <= n,
            n == text.len(),
            index_of(text@, c) == i + index_of(text@.subrange(i as int, n as int), c),
            forall|k: int| 0 <= k < i ==> text@[k] != c,
        decreases n - i,
    {
        assert(text@.subrange(i as int, n as int)[0] == text@[i as int]);
        if text[i] == c {
            return i;
        }
        assert(text@.subrange(i as int, n as int).drop_first() == text@.subrange(i + 1, n as int));
        i += 1;
    }
    n
}

fn contains_page(list: &Vec<u32>, p: u32) -> (r: bool)
    ensures
        r == list@.contains(p),
{
    let mut i: usize = 0;
    while i < list.len()
        invariant
            i <= list.len(),
            forall|k: int| 0 <= k < i ==> list@[k] != p,
        decreases list.len() - i,
    {
        if list[i] == p {
            return true;
        }
        i += 1;
    }
    false
}

fn add_page(list: &mut Vec<u32>, p: u32)
    ensures
        final(list)@ == with_page(old(list)@, p),
{
    if !contains_page(list, p) {
        list.push(p);
    }
}

fn add_range(list: &mut Vec<u32>, a: u32, b: u32)
    ensures
        final(list)@ == with_range(old(list)@, a, b),
{
    if a > b {
        return ;
    }
    let mut p: u32 = a;
    while p < b
        invariant
            a <= p <= b,
            with_range(old(list)@, a, b) == with_range(list@, p, b),
        decreases b - p,
    {
        add_page(list, p);
        p += 1;
    }
    add_page(list, p);
}

fn split_chars(text: &Vec<char>, sep: char) -> (r: Vec<Vec<char>>)
    ensures
        r@.map_values(|v: Vec<char>| v@) == split_at(text@, sep),
{
    let mut parts: Vec<Vec<char>> = Vec::new();
    let mut current: Vec<char> = Vec::new();
    let mut i: usize = 0;
    assert(parts@.map_values(|v: Vec<char>| v@).push(current@) =~= split_at(text@.take(0), sep));
    while i < text.len()
        invariant
            i <= text.len(),
            parts@.map_values(|v: Vec<char>| v@).push(current@) == split_at(
                text@.take(i as int),
                sep,
            ),
        decreases text.len() - i,
    {
        let ghost before = split_at(text@.take(i as int), sep);
        let ghost closed = parts@.map_values(|v: Vec<char>| v@);
        let ghost open = current@;
        assert(text@.take(i + 1).drop_last() == text@.take(i as int));
        assert(before.last() == open);
        if text[i] == sep {
            parts.push(current);
            current = Vec::new();
            assert(parts@.map_values(|v: Vec<char>| v@) =~= closed.push(open));
        } else {
            current.push(text[i]);
            assert(closed.push(current@) =~= before.update(
                before.len() - 1,
                before.last().push(text@[i as int]),
            ));
        }
        i += 1;
    }
    assert(text@.take(text.len() as int) == text@);
    let ghost closed = parts@.map_values(|v: Vec<char>| v@);
    let ghost open = current@;
    parts.push(current);
    assert(parts@.map_values(|v: Vec<char>| v@) =~= closed.push(open));
    parts
}

fn parse_ends(part: &Vec<char>) -> (r: Option<(u32, u32)>)
    requires
        part@.contains('-'),
    ensures
        r == range_ends(part@),
{
    let i = find_char(part, '-');
    let a = parse_u32(&slice_chars(part, 0, i));
    let b = parse_u32(&slice_chars(part, i + 1, part.len()));
    match (a, b) {
        (Some(a), Some(b)) => Some((a, b)),
        _ => None,
    }
}

fn sort_pages(pages: &Vec<u32>) -> (r: Vec<u32>)
    ensures
        r@ == ascending(pages@),
{
    let mut keys: Vec<Key> = Vec::new();
    let mut i: usize = 0;
    while i < pages.len()
        invariant
            i <= pages.len(),
            keys@ == page_keys(pages@).take(i as int),
        decreases pages.len() - i,
    {
        keys.push((pages[i] as i64, 0i64));
        i += 1;
    }
    assert(page_keys(pages@).take(pages.len() as int) =~= page_keys(pages@));
    let order = sorted_order(&keys);
    let ghost expected = ascending(pages@);
    assert(expected.len() == order.len()) by {
        assert(crate::sorting::as_ints(order@).len() == order.len());
    }
    let mut r: Vec<u32> = Vec::new();
    let mut k: usize = 0;
    while k < order.len()
        invariant
            k <= order.len(),
            order.len() == pages.len(),
            crate::sorting::as_ints(order@) == sort_order(page_keys(pages@)),
            expected == ascending(pages@),
            forall|j: int| 0 <= j < order.len() ==> #[trigger] order@[j] < pages.len(),
            r@ == expected.take(k as int),
        decreases order.len() - k,
    {
        assert(crate::sorting::as_ints(order@)[k as int] == order@[k as int] as int);
        r.push(pages[order[k]]);
        assert(r@ =~= expected.take(k + 1));
        k += 1;
    }
    assert(expected.take(order.len() as int) =~= expected);
    r
}

impl PageSelection {
    /// Tests whether the selection holds the page.
    pub fn includes(&self, page: u32) -> (r: bool)
        ensures
            r == selects(*self, page),
    {
        match self {
            PageSelection::All => true,
            PageSelection::Range(range) => range.contains(&page),
            PageSelection::Pages(pages) => contains_page(pages, page),
        }
    }

    /// Reads a selection such as `all`, `1-10` or `1,3,5-7,10`; whitespace
    /// is ignored. See [`parsed_selection`].
    ///
    /// Fails with `InvalidPageRange` where a number is not written well.
    pub fn parse(s: &str) -> (r: Result<PageSelection, Error>)
        ensures
            match r {
                Ok(sel) => is_parsed(sel, parsed_selection(s@)),
                Err(Error::InvalidPageRange(m)) => parsed_selection(s@) == Parsed::Invalid(m@),
                Err(_) => false,
            },
    {
        let t = strip_whitespace(&to_chars(s));
        let all = crate::text::chars3('a', 'l', 'l');
        if t.len() == 0 || same_chars(&t, &all) {
            return Ok(PageSelection::All);
        }
        let dash = find_char(&t, '-');
        let comma = find_char(&t, ',');
        if dash < t.len() && comma == t.len() {
            let a = match parse_u32(&slice_chars(&t, 0, dash)) {
                Some(a) => a,
                None => {
                    return Err(Error::InvalidPageRange("Invalid start page".to_owned()));
                },
            };
            let b = match parse_u32(&slice_chars(&t, dash + 1, t.len())) {
                Some(b) => b,
                None => {
                    return Err(Error::InvalidPageRange("Invalid end page".to_owned()));
                },
            };
            return Ok(PageSelection::Range(RangeInclusive::new(a, b)));
        }
        let parts = split_chars(&t, ',');
        let ghost part_views = parts@.map_values(|v: Vec<char>| v@);
        let mut pages: Vec<u32> = Vec::new();
        let mut i: usize = 0;
        while i < parts.len()
            invariant
                i <= parts.len(),
                part_views == parts@.map_values(|v: Vec<char>| v@),
                part_views == split_at(t@, ','),
                t@ == without_whitespace(s@),
                t@.len() != 0,
                t@ != seq!['a', 'l', 'l'],
                !(t@.contains('-') && !t@.contains(',')),
                listed_pages(part_views.take(i as int)) == Some(pages@),
            decreases parts.len() - i,
        {
            assert(part_views.take(i + 1).drop_last() == part_views.take(i as int));
            assert(part_views[i as int] == parts@[i as int]@);
            let part = &parts[i];
            let ok = if find_char(part, '-') < part.len() {
                match parse_ends(part) {
                    Some((a, b)) => {
                        add_range(&mut pages, a, b);
                        true
                    },
                    None => false,
                }
            } else {
                match parse_u32(part) {
                    Some(p) => {
                        add_page(&mut pages, p);
                        true
                    },
                    None => false,
                }
            };
            if !ok {
                proof {
                    lemma_listed_pages_fail(part_views, i + 1);
                }
                return Err(Error::InvalidPageRange("Invalid page number".to_owned()));
            }
            i += 1;
        }
        assert(part_views.take(parts.len() as int) == part_views);
        Ok(PageSelection::Pages(sort_pages(&pages)))
    }
}

/// Once a part is not written well, the list fails whatever follows.
pub proof fn lemma_listed_pages_fail(parts: Seq<Seq<char>>, k: int)
    requires
        0 <= k <= parts.len(),
        listed_pages(parts.take(k)) is None,
    ensures
        listed_pages(parts) is None,
    decreases parts.len() - k,
{
    if k < parts.len() {
        assert(parts.take(k + 1).drop_last() == parts.take(k));
        lemma_listed_pages_fail(parts, k + 1);
    } else {
        assert(parts.take(k) == parts);
    }
}

/// How headings are told from body text. Ratios are in thousandths.
#[derive(Debug, Clone, Copy, PartialEq, Eq, Structural)]
pub struct HeadingConfig {
    /// The least ratio of a first-level heading's size to the body size.
    pub h1_min_ratio: i32,
    /// The least ratio of a second-level heading's size to the body size.
    pub h2_min_ratio: i32,
    /// Whether bold or large text counts as a heading.
    pub detect_from_style: bool,
    /// Whether the outline is used.
    pub use_outline: bool,
    /// Whether Korean heading patterns are looked for.
    pub korean_patterns: bool,
}

impl Default for HeadingConfig {
    fn default() -> (r: HeadingConfig)
        ensures
            r == (HeadingConfig {
                h1_min_ratio: 1500,
                h2_min_ratio: 1300,
                detect_from_style: true,
                use_outline: true,
                korean_patterns: true,
            }),
    {
        HeadingConfig {
            h1_min_ratio: 1500,
            h2_min_ratio: 1300,
            detect_from_style: true,
            use_outline: true,
            korean_patterns: true,
        }
    }
}

/// What a renderer is asked to do.
#[derive(Debug, Clone)]
pub struct RenderOptions {
    /// The directory that extracted images are written to.
    pub image_dir: Option<String>,
    /// What image paths in the output start with.
    pub image_path_prefix: String,
    /// How tables with merged cells are rendered.
    pub table_fallback: TableFallback,
    /// The deepest heading level, 1 to 6.
    pub max_heading_level: u8,
    /// Whether the output starts with YAML frontmatter.
    pub include_frontmatter: bool,
    /// Whether line breaks are kept.
    pub preserve_line_breaks: bool,
    /// The marker of unordered list items.
    pub list_marker: char,
    /// Whether Markdown's special characters are escaped.
    pub escape_special_chars: bool,
    /// How the output is cleaned up; not at all where this is not set.
    pub cleanup: Option<CleanupOptions>,
    /// The pages to render.
    pub page_selection: PageSelection,
    /// How headings are told from body text.
    pub heading_config: Option<HeadingConfig>,
    /// The width at which lines are wrapped; 0 for no wrapping.
    pub line_width: u32,
    /// Whether statistics are collected.
    pub collect_stats: bool,
}

/// The options that a renderer starts from.
pub open spec fn is_default_options(o: RenderOptions) -> bool {
    &&& o.image_dir is None
    &&& o.image_path_prefix@.len() == 0
    &&& o.table_fallback == TableFallback::Markdown
    &&& o.max_heading_level == 6
    &&& !o.include_frontmatter
    &&& !o.preserve_line_breaks
    &&& o.list_marker == '-'
    &&& o.escape_special_chars
    &&& o.cleanup is None
    &&& o.page_selection is All
    &&& o.heading_config is None
    &&& o.line_width == 0
    &&& !o.collect_stats
}

impl Default for RenderOptions {
    fn default() -> (r: RenderOptions)
        ensures
            is_default_options(r),
    {
        RenderOptions {
            image_dir: None,
            image_path_prefix: String::new(),
            table_fallback: TableFallback::Markdown,
            max_heading_level: 6,
            include_frontmatter: false,
            preserve_line_breaks: false,
            list_marker: '-',
            escape_special_chars: true,
            cleanup: None,
            page_selection: PageSelection::All,
            heading_config: None,
            line_width: 0,
            collect_stats: false,
        }
    }
}

impl RenderOptions {
    /// The default options.
    pub fn new() -> (r: RenderOptions)
        ensures
            is_default_options(r),
    {
        RenderOptions::default()
    }

    /// The options with the image directory set.
    pub fn with_image_dir(self, dir: &str) -> (r: RenderOptions)
        ensures
            r.image_dir is Some,
            r.image_dir->0@ == dir@,
            (RenderOptions { image_dir: self.image_dir, ..r }) == self,
    {
        let mut o = self;
        o.image_dir = Some(dir.to_owned());
        o
    }

    /// The options with the prefix of image paths set.
    pub fn with_image_prefix(self, prefix: &str) -> (r: RenderOptions)
        ensures
            r.image_path_prefix@ == prefix@,
            (RenderOptions { image_path_prefix: self.image_path_prefix, ..r }) == self,
    {
        let mut o = self;
        o.image_path_prefix = prefix.to_owned();
        o
    }

    /// The options with the table fallback set.
    pub fn with_table_fallback(self, fallback: TableFallback) -> (r: RenderOptions)
        ensures
            r == (RenderOptions { table_fallback: fallback, ..self }),
    {
        let mut o = self;
        o.table_fallback = fallback;
        o
    }

    /// The options with the deepest heading level set, brought into 1 to 6.
    pub fn with_max_heading(self, level: u8) -> (r: RenderOptions)
        ensures
            r == (RenderOptions {
                max_heading_level: crate::model::paragraph::clamp_level(level),
                ..self
            }),
    {
        let mut o = self;
        o.max_heading_level = if level < 1 {
            1
        } else if level > 6 {
            6
        } else {
            level
        };
        o
    }

    /// The options with frontmatter switched on or off.
    pub fn with_frontmatter(self, enabled: bool) -> (r: RenderOptions)
        ensures
            r == (RenderOptions { include_frontmatter: enabled, ..self }),
    {
        let mut o = self;
        o.include_frontmatter = enabled;
        o
    }

    /// The options with the keeping of line breaks switched on or off.
    pub fn with_line_breaks(self, preserve: bool) -> (r: RenderOptions)
        ensures
            r == (RenderOptions { preserve_line_breaks: preserve, ..self }),
    {
        let mut o = self;
        o.preserve_line_breaks = preserve;
        o
    }

    /// The options with the list marker set.
    pub fn with_list_marker(self, marker: char) -> (r: RenderOptions)
        ensures
            r == (RenderOptions { list_marker: marker, ..self }),
    {
        let mut o = self;
        o.list_marker = marker;
        o
    }

    /// The options with the cleanup set.
    pub fn with_cleanup(self, cleanup: CleanupOptions) -> (r: RenderOptions)
        ensures
            r == (RenderOptions { cleanup: Some(cleanup), ..self }),
    {
        let mut o = self;
        o.cleanup = Some(cleanup);
        o
    }

    /// The options with the cleanup of a preset.
    pub fn with_cleanup_preset(self, preset: CleanupPreset) -> (r: RenderOptions)
        ensures
            r == (RenderOptions {
                cleanup: Some(crate::render::cleanup::preset_options(preset)),
                ..self
            }),
    {
        let mut o = self;
        o.cleanup = Some(CleanupOptions::from_preset(preset));
        o
    }

    /// The options with the page selection set.
    pub fn with_pages(self, selection: PageSelection) -> (r: RenderOptions)
        ensures
            r == (RenderOptions { page_selection: selection, ..self }),
    {
        let mut o = self;
        o.page_selection = selection;
        o
    }

    /// The options with a range of pages selected.
    pub fn with_page_range(self, range: RangeInclusive<u32>) -> (r: RenderOptions)
        ensures
            r == (RenderOptions { page_selection: PageSelection::Range(range), ..self }),
    {
        let mut o = self;
        o.page_selection = PageSelection::Range(range);
        o
    }

    /// The options with a list of pages selected.
    pub fn with_page_list(self, pages: Vec<u32>) -> (r: RenderOptions)
        ensures
            r == (RenderOptions { page_selection: PageSelection::Pages(pages), ..self }),
    {
        let mut o = self;
        o.page_selection = PageSelection::Pages(pages);
        o
    }

    /// The options with the heading configuration set.
    pub fn with_heading_config(self, config: HeadingConfig) -> (r: RenderOptions)
        ensures
            r == (RenderOptions { heading_config: Some(config), ..self }),
    {
        let mut o = self;
        o.heading_config = Some(config);
        o
    }

    /// The options with the default heading configuration.
    pub fn with_heading_analysis(self) -> (r: RenderOptions)
        ensures
            r.heading_config is Some,
            (RenderOptions { heading_config: self.heading_config, ..r }) == self,
    {
        let mut o = self;
        o.heading_config = Some(HeadingConfig::default());
        o
    }

    /// The options with the line width set.
    pub fn with_line_width(self, width: u32) -> (r: RenderOptions)
        ensures
            r == (RenderOptions { line_width: width, ..self }),
    {
        let mut o = self;
        o.line_width = width;
        o
    }

    /// The options with the collecting of statistics switched on or off.
    pub fn with_stats(self, collect: bool) -> (r: RenderOptions)
        ensures
            r == (RenderOptions { collect_stats: collect, ..self }),
    {
        let mut o = self;
        o.collect_stats = collect;
        o
    }
}

} // verus!
