//! Positioned text and the layout analysis over it: font statistics, column
//! detection, line grouping, heading classification and paragraph blocks.

use crate::sorting::{as_ints, sort_order, sorted_order, Key};
use crate::text::{append_str, contains, contains_chars, push_char, to_chars};
use crate::units::{clamp32, clamp_to_i32, div_toward_zero, div_trunc};
use vstd::prelude::*;

verus! {

/// One emission of text with a single font, size and origin. Lengths are in
/// thousandths of a point; the origin is the left end of the baseline.
#[derive(Debug)]
pub struct TextSpan {
    /// The text.
    pub text: String,
    /// Left edge.
    pub x: i32,
    /// Baseline.
    pub y: i32,
    /// Width of the text; zero where it is not known.
    pub width: i32,
    /// Font size.
    pub font_size: i32,
    /// Font name, such as `Helvetica-Bold`.
    pub font_name: String,
    /// Whether the font name suggests a bold face.
    pub is_bold: bool,
    /// Whether the font name suggests an italic face.
    pub is_italic: bool,
}

/// The mathematical value of a [`TextSpan`].
pub struct SpanView {
    pub text: Seq<char>,
    pub x: int,
    pub y: int,
    pub width: int,
    pub font_size: int,
    pub font_name: Seq<char>,
    pub is_bold: bool,
    pub is_italic: bool,
}

impl View for TextSpan {
    type V = SpanView;

    open spec fn view(&self) -> SpanView {
        SpanView {
            text: self.text@,
            x: self.x as int,
            y: self.y as int,
            width: self.width as int,
            font_size: self.font_size as int,
            font_name: self.font_name@,
            is_bold: self.is_bold,
            is_italic: self.is_italic,
        }
    }
}

/// The values of a sequence of spans.
pub open spec fn span_views(v: Seq<TextSpan>) -> Seq<SpanView> {
    v.map_values(|s: TextSpan| s@)
}

/// What `str::to_lowercase` makes of a text: its lowercase form by the
/// Unicode case mappings.
pub uninterp spec fn lowercase(s: Seq<char>) -> Seq<char>;

/// `str::to_lowercase`. Not proved: that the result is the lowercase form
/// of the text, which [`lowercase`] names.
#[verifier::external_body]
pub(crate) fn to_lowercase(s: &str) -> (r: String)
    ensures
        r@ == lowercase(s@),
{
    s.to_lowercase()
}

/// A font name suggests a bold face when its lowercase form contains
/// `bold`, `black` or `heavy`.
pub open spec fn is_bold_name(name: Seq<char>) -> bool {
    let l = lowercase(name);
    contains(l, seq!['b', 'o', 'l', 'd']) || contains(l, seq!['b', 'l', 'a', 'c', 'k'])
        || contains(l, seq!['h', 'e', 'a', 'v', 'y'])
}

/// A font name suggests an italic face when its lowercase form contains
/// `italic` or `oblique`.
pub open spec fn is_italic_name(name: Seq<char>) -> bool {
    let l = lowercase(name);
    contains(l, seq!['i', 't', 'a', 'l', 'i', 'c']) || contains(
        l,
        seq!['o', 'b', 'l', 'i', 'q', 'u', 'e'],
    )
}

/// The value of a span made by [`TextSpan::new`].
pub open spec fn new_span(text: Seq<char>, x: int, y: int, font_size: int, font_name: Seq<char>)
    -> SpanView {
    SpanView {
        text,
        x,
        y,
        width: 0,
        font_size,
        font_name,
        is_bold: is_bold_name(font_name),
        is_italic: is_italic_name(font_name),
    }
}

impl TextSpan {
    /// A span of unknown width; the bold and italic flags are read off the
    /// font name.
    pub fn new(text: String, x: i32, y: i32, font_size: i32, font_name: String) -> (r: TextSpan)
        ensures
            r@ == new_span(text@, x as int, y as int, font_size as int, font_name@),
    {
        let lower = to_lowercase(font_name.as_str());
        let l = to_chars(lower.as_str());
        let bold = vec!['b', 'o', 'l', 'd'];
        let black = vec!['b', 'l', 'a', 'c', 'k'];
        let heavy = vec!['h', 'e', 'a', 'v', 'y'];
        let italic = vec!['i', 't', 'a', 'l', 'i', 'c'];
        let oblique = vec!['o', 'b', 'l', 'i', 'q', 'u', 'e'];
        assert(bold@ == seq!['b', 'o', 'l', 'd']);
        assert(black@ == seq!['b', 'l', 'a', 'c', 'k']);
        assert(heavy@ == seq!['h', 'e', 'a', 'v', 'y']);
        assert(italic@ == seq!['i', 't', 'a', 'l', 'i', 'c']);
        assert(oblique@ == seq!['o', 'b', 'l', 'i', 'q', 'u', 'e']);
        let is_bold = contains_chars(&l, &bold) || contains_chars(&l, &black) || contains_chars(
            &l,
            &heavy,
        );
        let is_italic = contains_chars(&l, &italic) || contains_chars(&l, &oblique);
        TextSpan { text, x, y, width: 0, font_size, font_name, is_bold, is_italic }
    }

    /// A copy of this span.
    pub fn duplicate(&self) -> (r: TextSpan)
        ensures
            r@ == self@,
    {
        TextSpan {
            text: self.text.clone(),
            x: self.x,
            y: self.y,
            width: self.width,
            font_size: self.font_size,
            font_name: self.font_name.clone(),
            is_bold: self.is_bold,
            is_italic: self.is_italic,
        }
    }

    /// The bottom of the span: a fifth of the font size below the baseline.
    pub fn bottom(&self) -> (r: i64)
        ensures
            r == self.y - crate::units::div_toward_zero(self.font_size as int, 5),
    {
        let fifth = crate::units::div_trunc(self.font_size as i64, 5);
        self.y as i64 - fifth
    }

    /// The top of the span: four fifths of the font size above the baseline.
    pub fn top(&self) -> (r: i64)
        ensures
            r == self.y + crate::units::div_toward_zero(self.font_size * 4, 5),
    {
        let part = crate::units::div_trunc(self.font_size as i64 * 4, 5);
        self.y as i64 + part
    }
}

/// Characters of scripts that put no spaces between words: the CJK
/// ideographs with their extensions A to F and their compatibility blocks,
/// Hiragana, Katakana, and the CJK symbols and punctuation. Hangul is not
/// among them.
pub open spec fn is_spaceless_script(c: char) -> bool {
    let u = c as u32;
    (0x4E00 <= u <= 0x9FFF) || (0x3400 <= u <= 0x4DBF) || (0x20000 <= u <= 0x2A6DF) || (0x2A700
        <= u <= 0x2B73F) || (0x2B740 <= u <= 0x2B81F) || (0x2B820 <= u <= 0x2CEAF) || (0x2CEB0
        <= u <= 0x2EBEF) || (0xF900 <= u <= 0xFAFF) || (0x2F800 <= u <= 0x2FA1F) || (0x3040 <= u
        <= 0x309F) || (0x30A0 <= u <= 0x30FF) || (0x3000 <= u <= 0x303F)
}

/// Tests whether `c` belongs to a script without spaces between words.
pub fn is_spaceless_script_char(c: char) -> (r: bool)
    ensures
        r == is_spaceless_script(c),
{
    let u: u32 = c as u32;
    (0x4E00 <= u && u <= 0x9FFF) || (0x3400 <= u && u <= 0x4DBF) || (0x20000 <= u && u
        <= 0x2A6DF) || (0x2A700 <= u && u <= 0x2B73F) || (0x2B740 <= u && u <= 0x2B81F) || (
    0x2B820 <= u && u <= 0x2CEAF) || (0x2CEB0 <= u && u <= 0x2EBEF) || (0xF900 <= u && u
        <= 0xFAFF) || (0x2F800 <= u && u <= 0x2FA1F) || (0x3040 <= u && u <= 0x309F) || (0x30A0
        <= u && u <= 0x30FF) || (0x3000 <= u && u <= 0x303F)
}

/// How often sizes of one bucket were observed.
#[derive(Debug, Clone, Copy, PartialEq, Eq, Structural)]
pub struct SizeCount {
    /// The bucket: the font size in tenths of a point, rounded toward zero.
    pub key: i32,
    /// The number of observations.
    pub count: usize,
}

/// Font sizes observed on a page, and what they say about headings.
#[derive(Debug)]
pub struct FontStatistics {
    /// The size of body text: the most frequent size.
    pub body_size: i32,
    /// The sizes that may be headings, largest first.
    pub heading_sizes: Vec<i32>,
    /// The observations, by ascending bucket.
    pub size_histogram: Vec<SizeCount>,
}

/// The bucket of a font size.
pub open spec fn size_key(size: int) -> int {
    div_toward_zero(size, 100)
}

/// The font size that a bucket stands for.
pub open spec fn key_size(key: int) -> int {
    clamp32(key * 100)
}

/// A count one higher, as far as the machine can count.
pub open spec fn bumped(count: usize) -> usize {
    if count < usize::MAX {
        (count + 1) as usize
    } else {
        count
    }
}

/// The buckets ascend strictly.
pub open spec fn histogram_sorted(h: Seq<SizeCount>) -> bool {
    forall|i: int, j: int| 0 <= i < j < h.len() ==> (#[trigger] h[i]).key < (#[trigger] h[j]).key
}

/// The histogram after one more observation in bucket `key`.
pub open spec fn histogram_with(h: Seq<SizeCount>, key: i32) -> Seq<SizeCount>
    decreases h.len(),
{
    if h.len() == 0 {
        seq![SizeCount { key, count: 1 }]
    } else if h[0].key == key {
        h.update(0, SizeCount { key, count: bumped(h[0].count) })
    } else if h[0].key > key {
        seq![SizeCount { key, count: 1 }] + h
    } else {
        seq![h[0]] + histogram_with(h.drop_first(), key)
    }
}

/// The index of the most frequent bucket; among equally frequent ones, the
/// first.
pub open spec fn body_index(h: Seq<SizeCount>) -> int
    decreases h.len(),
{
    if h.len() <= 1 {
        0
    } else {
        let best = body_index(h.drop_last());
        if h.last().count > h[best].count {
            h.len() - 1
        } else {
            best
        }
    }
}

/// The sizes of the buckets that lie more than half a point above the body
/// size, last bucket first.
pub open spec fn larger_sizes(h: Seq<SizeCount>, body: int) -> Seq<i32>
    decreases h.len(),
{
    if h.len() == 0 {
        Seq::empty()
    } else if key_size(h[0].key as int) > body + 500 {
        larger_sizes(h.drop_first(), body).push(key_size(h[0].key as int) as i32)
    } else {
        larger_sizes(h.drop_first(), body)
    }
}

/// The index of the first heading size that `size` reaches to within half a
/// point, or the number of sizes where it reaches none.
pub open spec fn first_reached(sizes: Seq<i32>, size: int) -> int
    decreases sizes.len(),
{
    if sizes.len() == 0 {
        0
    } else if size >= sizes[0] - 500 {
        0
    } else {
        1 + first_reached(sizes.drop_first(), size)
    }
}

/// The heading level of a font size: 0 below the body size plus one and a
/// half points; else the rank of the first heading size it reaches, at most
/// 6; and 5 where it reaches none.
pub open spec fn heading_level(body: int, sizes: Seq<i32>, size: int) -> int {
    if size < body + 1500 {
        0
    } else {
        let i = first_reached(sizes, size);
        if i >= sizes.len() {
            5
        } else if i + 1 < 6 {
            i + 1
        } else {
            6
        }
    }
}

/// A larger size reaches a heading size no later than a smaller one.
pub proof fn lemma_first_reached_monotone(sizes: Seq<i32>, size1: int, size2: int)
    requires
        size1 >= size2,
    ensures
        0 <= first_reached(sizes, size1) <= first_reached(sizes, size2) <= sizes.len(),
    decreases sizes.len(),
{
    if sizes.len() > 0 {
        lemma_first_reached_monotone(sizes.drop_first(), size1, size2);
    }
}

/// The two sizes on which the rank of headings is not monotone: the smaller
/// reaches no heading size and gets the middle level 5, while the larger
/// reaches the sixth or a later one and gets level 6.
pub open spec fn heading_rank_inverts(sizes: Seq<i32>, size1: int, size2: int) -> bool {
    first_reached(sizes, size2) >= sizes.len() && 5 <= first_reached(sizes, size1) < sizes.len()
}

/// Of two sizes that both pass the heading threshold, the larger gets the
/// more prominent heading level, that is the lower number, unless the two
/// fall under [`heading_rank_inverts`].
pub proof fn lemma_heading_level_monotone(body: int, sizes: Seq<i32>, size1: int, size2: int)
    requires
        size1 > size2,
        size2 >= body + 1500,
        !heading_rank_inverts(sizes, size1, size2),
    ensures
        heading_level(body, sizes, size1) <= heading_level(body, sizes, size2),
{
    lemma_first_reached_monotone(sizes, size1, size2);
}

/// One more observation keeps the buckets in ascending order.
pub proof fn lemma_histogram_with_sorted(h: Seq<SizeCount>, key: i32)
    requires
        histogram_sorted(h),
    ensures
        histogram_sorted(histogram_with(h, key)),
        histogram_with(h, key).len() > 0,
        histogram_with(h, key)[0].key == (if h.len() > 0 && h[0].key < key {
            h[0].key
        } else {
            key
        }),
    decreases h.len(),
{
    if h.len() > 0 && h[0].key < key {
        let t = h.drop_first();
        assert(histogram_sorted(t)) by {
            assert forall|i: int, j: int| 0 <= i < j < t.len() implies (#[trigger] t[i]).key < (
            #[trigger] t[j]).key by {
                assert(t[i] == h[i + 1] && t[j] == h[j + 1]);
            }
        }
        lemma_histogram_with_sorted(t, key);
        let r = histogram_with(t, key);
        let out = seq![h[0]] + r;
        assert forall|i: int, j: int| 0 <= i < j < out.len() implies (#[trigger] out[i]).key < (
        #[trigger] out[j]).key by {
            if i == 0 {
                assert(out[j] == r[j - 1]);
                if t.len() > 0 {
                    assert(t[0] == h[1]);
                }
                if j - 1 > 0 {
                    assert(r[0].key < r[j - 1].key);
                }
            } else {
                assert(out[i] == r[i - 1] && out[j] == r[j - 1]);
            }
        }
    } else if h.len() > 0 && h[0].key > key {
        let out = seq![SizeCount { key, count: 1 }] + h;
        assert forall|i: int, j: int| 0 <= i < j < out.len() implies (#[trigger] out[i]).key < (
        #[trigger] out[j]).key by {
            assert(out[j] == h[j - 1]);
            if i > 0 {
                assert(out[i] == h[i - 1]);
            } else if j - 1 > 0 {
                assert(h[0].key < h[j - 1].key);
            }
        }
    } else if h.len() > 0 {
        let out = h.update(0, SizeCount { key, count: bumped(h[0].count) });
        assert forall|i: int, j: int| 0 <= i < j < out.len() implies (#[trigger] out[i]).key < (
        #[trigger] out[j]).key by {
            assert(out[j] == h[j]);
            assert(h[i].key < h[j].key);
        }
    }
}

impl Default for FontStatistics {
    fn default() -> (r: FontStatistics)
        ensures
            r.body_size == 0,
            r.heading_sizes@.len() == 0,
            r.size_histogram@.len() == 0,
    {
        FontStatistics { body_size: 0, heading_sizes: Vec::new(), size_histogram: Vec::new() }
    }
}

impl FontStatistics {
    /// Records one observation of a font size.
    pub fn add_size(&mut self, size: i32)
        ensures
            final(self).size_histogram@ == histogram_with(
                old(self).size_histogram@,
                size_key(size as int) as i32,
            ),
            final(self).body_size == old(self).body_size,
            final(self).heading_sizes == old(self).heading_sizes,
    {
        let key: i32 = div_trunc(size as i64, 100) as i32;
        let n = self.size_histogram.len();
        let ghost h = self.size_histogram@;
        let mut i: usize = 0;
        assert(h.subrange(0, n as int) == h);
        while i < n && self.size_histogram[i].key < key
            invariant
                i <= n,
                n == h.len(),
                self.size_histogram@ == h,
                self.body_size == old(self).body_size,
                self.heading_sizes == old(self).heading_sizes,
                histogram_with(h, key) == h.take(i as int) + histogram_with(
                    h.subrange(i as int, n as int),
                    key,
                ),
            decreases n - i,
        {
            let ghost rest = h.subrange(i as int, n as int);
            assert(rest.drop_first() == h.subrange(i + 1, n as int));
            assert(h.take(i as int) + (seq![rest[0]] + histogram_with(rest.drop_first(), key))
                == h.take(i + 1) + histogram_with(rest.drop_first(), key));
            i += 1;
        }
        let ghost rest = h.subrange(i as int, n as int);
        if i < n && self.size_histogram[i].key == key {
            let count = self.size_histogram[i].count;
            let count = if count < usize::MAX {
                count + 1
            } else {
                count
            };
            self.size_histogram.set(i, SizeCount { key, count });
            assert(self.size_histogram@ =~= h.take(i as int) + rest.update(
                0,
                SizeCount { key, count },
            ));
        } else {
            self.size_histogram.insert(i, SizeCount { key, count: 1 });
            assert(self.size_histogram@ =~= h.take(i as int) + (seq![SizeCount { key, count: 1 }]
                + rest));
            if i == n {
                assert(seq![SizeCount { key, count: 1 }] + rest =~= seq![
                    SizeCount { key, count: 1 },
                ]);
            }
        }
    }

    /// Derives the body size and the heading sizes from the observations.
    ///
    /// The body size is that of the most frequent bucket, the smallest among
    /// equally frequent ones; with no observation it is 12 points and the
    /// heading sizes stay as they are. The heading sizes are those more than
    /// half a point above the body size, largest first.
    pub fn analyze(&mut self)
        ensures
            final(self).size_histogram == old(self).size_histogram,
            old(self).size_histogram@.len() == 0 ==> final(self).body_size == 12000
                && final(self).heading_sizes == old(self).heading_sizes,
            old(self).size_histogram@.len() > 0 ==> final(self).body_size == key_size(
                old(self).size_histogram@[body_index(old(self).size_histogram@)].key as int,
            ) && final(self).heading_sizes@ == larger_sizes(
                old(self).size_histogram@,
                final(self).body_size as int,
            ),
    {
        let n = self.size_histogram.len();
        if n == 0 {
            self.body_size = 12000;
            return ;
        }
        let ghost h = self.size_histogram@;
        let mut best: usize = 0;
        let mut i: usize = 1;
        assert(h.take(1).drop_last() =~= h.take(0));
        while i < n
            invariant
                1 <= i <= n,
                n == h.len(),
                self.size_histogram@ == h,
                self.size_histogram == old(self).size_histogram,
                best < i,
                best == body_index(h.take(i as int)),
            decreases n - i,
        {
            assert(h.take(i + 1).drop_last() == h.take(i as int));
            if self.size_histogram[i].count > self.size_histogram[best].count {
                best = i;
            }
            i += 1;
        }
        assert(h.take(n as int) == h);
        let body = clamp_to_i32(self.size_histogram[best].key as i64 * 100);
        self.body_size = body;
        let mut sizes: Vec<i32> = Vec::new();
        let mut k: usize = n;
        assert(h.subrange(n as int, n as int) =~= Seq::<SizeCount>::empty());
        while k > 0
            invariant
                k <= n,
                n == h.len(),
                self.size_histogram@ == h,
                self.size_histogram == old(self).size_histogram,
                self.body_size == body,
                sizes@ == larger_sizes(h.subrange(k as int, n as int), body as int),
            decreases k,
        {
            k -= 1;
            assert(h.subrange(k as int, n as int).drop_first() == h.subrange(k + 1, n as int));
            let size = clamp_to_i32(self.size_histogram[k].key as i64 * 100);
            if size as i64 > body as i64 + 500 {
                sizes.push(size);
            }
        }
        assert(h.subrange(0, n as int) == h);
        self.heading_sizes = sizes;
    }

    /// The heading level of a font size, 1 to 6, or 0 for body text; see
    /// [`heading_level`]. Whether the text is bold plays no part.
    pub fn get_heading_level(&self, font_size: i32, _is_bold: bool) -> (level: u8)
        ensures
            level == heading_level(
                self.body_size as int,
                self.heading_sizes@,
                font_size as int,
            ),
    {
        if (font_size as i64) < self.body_size as i64 + 1500 {
            return 0;
        }
        let n = self.heading_sizes.len();
        let ghost sizes = self.heading_sizes@;
        let mut i: usize = 0;
        assert(sizes.subrange(0, n as int) == sizes);
        while i < n
            invariant
                i <= n,
                n == sizes.len(),
                sizes == self.heading_sizes@,
                font_size >= self.body_size + 1500,
                first_reached(sizes, font_size as int) == i + first_reached(
                    sizes.subrange(i as int, n as int),
                    font_size as int,
                ),
            decreases n - i,
        {
            if font_size as i64 >= self.heading_sizes[i] as i64 - 500 {
                assert(sizes.subrange(i as int, n as int)[0] == sizes[i as int]);
                return if i + 1 < 6 {
                    (i + 1) as u8
                } else {
                    6
                };
            }
            assert(sizes.subrange(i as int, n as int).drop_first() == sizes.subrange(
                i + 1,
                n as int,
            ));
            i += 1;
        }
        5
    }
}

/// The items at the indices that `order` lists, in that order.
pub open spec fn reordered<T>(items: Seq<T>, order: Seq<int>) -> Seq<T> {
    order.map_values(|i: int| items[i])
}

/// Copies of the spans at the indices that `order` lists, in that order.
pub(crate) fn spans_in_order(spans: &Vec<TextSpan>, order: &Vec<usize>) -> (r: Vec<TextSpan>)
    requires
        forall|i: int| 0 <= i < order.len() ==> #[trigger] order@[i] < spans.len(),
    ensures
        span_views(r@) == reordered(span_views(spans@), as_ints(order@)),
{
    let mut r: Vec<TextSpan> = Vec::new();
    let mut i: usize = 0;
    while i < order.len()
        invariant
            i <= order.len(),
            forall|j: int| 0 <= j < order.len() ==> #[trigger] order@[j] < spans.len(),
            span_views(r@) == reordered(span_views(spans@), as_ints(order@)).take(i as int),
        decreases order.len() - i,
    {
        let ghost before = span_views(r@);
        let s = spans[order[i]].duplicate();
        r.push(s);
        assert(span_views(r@) =~= before.push(s@));
        assert(span_views(r@) =~= reordered(span_views(spans@), as_ints(order@)).take(i + 1));
        i += 1;
    }
    assert(reordered(span_views(spans@), as_ints(order@)).take(order.len() as int) =~= reordered(
        span_views(spans@),
        as_ints(order@),
    ));
    r
}

/// Copies of all the spans.
pub fn duplicate_spans(spans: &Vec<TextSpan>) -> (r: Vec<TextSpan>)
    ensures
        span_views(r@) == span_views(spans@),
{
    let mut r: Vec<TextSpan> = Vec::new();
    let mut i: usize = 0;
    while i < spans.len()
        invariant
            i <= spans.len(),
            span_views(r@) == span_views(spans@).take(i as int),
        decreases spans.len() - i,
    {
        let ghost before = span_views(r@);
        let s = spans[i].duplicate();
        r.push(s);
        assert(span_views(r@) =~= before.push(s@));
        i += 1;
    }
    assert(span_views(spans@).take(spans.len() as int) =~= span_views(spans@));
    r
}

/// The keys that order spans from left to right.
pub open spec fn x_keys(spans: Seq<SpanView>) -> Seq<Key> {
    spans.map_values(|s: SpanView| (0i64, s.x as i64))
}

/// The keys that order spans from top to bottom, and from left to right on
/// one baseline.
pub open spec fn reading_keys(spans: Seq<SpanView>) -> Seq<Key> {
    spans.map_values(|s: SpanView| ((-s.y) as i64, s.x as i64))
}

/// The spans from left to right; spans with one left edge keep their order.
pub open spec fn sorted_by_x(spans: Seq<SpanView>) -> Seq<SpanView> {
    reordered(spans, sort_order(x_keys(spans)))
}

/// The spans from top to bottom, and from left to right on one baseline;
/// spans at one point keep their order.
pub open spec fn sorted_for_reading(spans: Seq<SpanView>) -> Seq<SpanView> {
    reordered(spans, sort_order(reading_keys(spans)))
}

/// Copies of the spans, from left to right.
pub fn sort_spans_by_x(spans: &Vec<TextSpan>) -> (r: Vec<TextSpan>)
    ensures
        span_views(r@) == sorted_by_x(span_views(spans@)),
{
    let mut keys: Vec<Key> = Vec::new();
    let mut i: usize = 0;
    while i < spans.len()
        invariant
            i <= spans.len(),
            keys@ == x_keys(span_views(spans@)).take(i as int),
        decreases spans.len() - i,
    {
        keys.push((0i64, spans[i].x as i64));
        i += 1;
    }
    assert(x_keys(span_views(spans@)).take(spans.len() as int) =~= x_keys(span_views(spans@)));
    let order = sorted_order(&keys);
    spans_in_order(spans, &order)
}

/// Copies of the spans, in reading order.
pub fn sort_spans_for_reading(spans: &Vec<TextSpan>) -> (r: Vec<TextSpan>)
    ensures
        span_views(r@) == sorted_for_reading(span_views(spans@)),
{
    let mut keys: Vec<Key> = Vec::new();
    let mut i: usize = 0;
    while i < spans.len()
        invariant
            i <= spans.len(),
            keys@ == reading_keys(span_views(spans@)).take(i as int),
        decreases spans.len() - i,
    {
        keys.push((-(spans[i].y as i64), spans[i].x as i64));
        i += 1;
    }
    assert(reading_keys(span_views(spans@)).take(spans.len() as int) =~= reading_keys(
        span_views(spans@),
    ));
    let order = sorted_order(&keys);
    spans_in_order(spans, &order)
}

/// A line of text: spans on one baseline, from left to right.
#[derive(Debug)]
pub struct TextLine {
    /// The spans, by ascending left edge.
    pub spans: Vec<TextSpan>,
    /// Baseline.
    pub y: i32,
    /// Left edge of the first span.
    pub x: i32,
    /// The dominant font size: the mean over the characters.
    pub font_size: i32,
    /// Whether the line is a heading.
    pub is_heading: bool,
    /// The heading level, 1 to 6, or 0.
    pub heading_level: u8,
}

/// The mathematical value of a [`TextLine`].
pub struct LineView {
    pub spans: Seq<SpanView>,
    pub y: int,
    pub x: int,
    pub font_size: int,
    pub is_heading: bool,
    pub heading_level: int,
}

impl View for TextLine {
    type V = LineView;

    open spec fn view(&self) -> LineView {
        LineView {
            spans: span_views(self.spans@),
            y: self.y as int,
            x: self.x as int,
            font_size: self.font_size as int,
            is_heading: self.is_heading,
            heading_level: self.heading_level as int,
        }
    }
}

/// The values of a sequence of lines.
pub open spec fn line_views(v: Seq<TextLine>) -> Seq<LineView> {
    v.map_values(|l: TextLine| l@)
}

/// The weight of a span in the dominant font size: its number of
/// characters, of which at most 2^32 - 1 count.
pub open spec fn span_weight(s: SpanView) -> int {
    if s.text.len() > 0xFFFF_FFFF {
        0xFFFF_FFFF
    } else {
        s.text.len() as int
    }
}

/// The sum of the weights of the spans.
pub open spec fn total_weight(spans: Seq<SpanView>) -> int
    decreases spans.len(),
{
    if spans.len() == 0 {
        0
    } else {
        total_weight(spans.drop_last()) + span_weight(spans.last())
    }
}

/// The sum of the font sizes of the spans, each times its weight.
pub open spec fn weighted_sizes(spans: Seq<SpanView>) -> int
    decreases spans.len(),
{
    if spans.len() == 0 {
        0
    } else {
        weighted_sizes(spans.drop_last()) + spans.last().font_size * span_weight(spans.last())
    }
}

/// The dominant font size of the spans: the mean of their sizes weighted by
/// their characters, rounded toward zero; the first span's size where no
/// span has a character.
pub open spec fn dominant_size(spans: Seq<SpanView>) -> int
    recommends
        spans.len() > 0,
{
    if total_weight(spans) > 0 {
        clamp32(div_toward_zero(weighted_sizes(spans), total_weight(spans)))
    } else {
        spans[0].font_size
    }
}

/// The line that the spans form.
pub open spec fn line_of(spans: Seq<SpanView>) -> LineView {
    if spans.len() == 0 {
        LineView {
            spans: Seq::empty(),
            y: 0,
            x: 0,
            font_size: 0,
            is_heading: false,
            heading_level: 0,
        }
    } else {
        let sorted = sorted_by_x(spans);
        LineView {
            spans: sorted,
            y: sorted[0].y,
            x: sorted[0].x,
            font_size: dominant_size(sorted),
            is_heading: false,
            heading_level: 0,
        }
    }
}

/// The gap between two spans is wide enough for a space: more than a fifth
/// of the mean character width of the second span, or, where its width or
/// its text is missing, more than a tenth of its font size.
pub open spec fn gap_exceeds(prev: SpanView, cur: SpanView) -> bool {
    let gap = cur.x - (prev.x + prev.width);
    if cur.text.len() > 0 && cur.width > 0 {
        5 * gap * cur.text.len() > cur.width
    } else {
        10 * gap > cur.font_size
    }
}

/// The text ends with a space or a no-break space.
pub open spec fn ends_with_space(t: Seq<char>) -> bool {
    t.len() > 0 && (t.last() == ' ' || t.last() == '\u{00A0}')
}

/// The text starts with a space or a no-break space.
pub open spec fn starts_with_space(t: Seq<char>) -> bool {
    t.len() > 0 && (t[0] == ' ' || t[0] == '\u{00A0}')
}

/// The last character of the first text and the first character of the
/// second are both of a spaceless script.
pub open spec fn both_spaceless(a: Seq<char>, b: Seq<char>) -> bool {
    a.len() > 0 && b.len() > 0 && is_spaceless_script(a.last()) && is_spaceless_script(b[0])
}

/// A space is put between two adjacent spans of a line.
pub open spec fn needs_space(prev: SpanView, cur: SpanView) -> bool {
    gap_exceeds(prev, cur) && !both_spaceless(prev.text, cur.text) && !ends_with_space(prev.text)
        && !starts_with_space(cur.text)
}

/// The text of a line: the texts of its spans, with single spaces where
/// [`needs_space`] asks for them.
pub open spec fn joined_text(spans: Seq<SpanView>) -> Seq<char>
    decreases spans.len(),
{
    if spans.len() == 0 {
        Seq::empty()
    } else if spans.len() == 1 {
        spans[0].text
    } else {
        let sep = if needs_space(spans[spans.len() - 2], spans.last()) {
            seq![' ']
        } else {
            Seq::empty()
        };
        joined_text(spans.drop_last()) + sep + spans.last().text
    }
}

/// Between two spans that meet in characters of a spaceless script no space
/// is put, whatever the gap between them.
pub proof fn lemma_spaceless_join(a: SpanView, b: SpanView)
    requires
        both_spaceless(a.text, b.text),
    ensures
        !needs_space(a, b),
        joined_text(seq![a, b]) == a.text + b.text,
{
    let s = seq![a, b];
    assert(s.drop_last() =~= seq![a]);
    assert(joined_text(seq![a]) == a.text);
    assert(a.text + Seq::<char>::empty() + b.text =~= a.text + b.text);
}

/// What `char::is_alphabetic` says of a character: whether it has the
/// Unicode property `Alphabetic`.
pub uninterp spec fn is_alphabetic(c: char) -> bool;

/// What `char::is_uppercase` says of a character: whether it has the
/// Unicode property `Uppercase`.
pub uninterp spec fn is_uppercase(c: char) -> bool;

/// `char::is_alphabetic`. Not proved: that the answer is the property that
/// [`is_alphabetic`] names.
#[verifier::external_body]
pub(crate) fn char_is_alphabetic(c: char) -> (r: bool)
    ensures
        r == is_alphabetic(c),
{
    c.is_alphabetic()
}

/// `char::is_uppercase`. Not proved: that the answer is the property that
/// [`is_uppercase`] names.
#[verifier::external_body]
pub(crate) fn char_is_uppercase(c: char) -> (r: bool)
    ensures
        r == is_uppercase(c),
{
    c.is_uppercase()
}

/// The text holds a letter, and all its letters are uppercase.
pub open spec fn is_uppercase_text(t: Seq<char>) -> bool {
    (exists|i: int| 0 <= i < t.len() && is_alphabetic(#[trigger] t[i])) && forall|i: int|
        0 <= i < t.len() && is_alphabetic(#[trigger] t[i]) ==> is_uppercase(t[i])
}

/// The number of characters in the spans that `pick` selects.
pub open spec fn char_mass(spans: Seq<SpanView>, pick: spec_fn(SpanView) -> bool) -> int
    decreases spans.len(),
{
    if spans.len() == 0 {
        0
    } else {
        char_mass(spans.drop_last(), pick) + if pick(spans.last()) {
            spans.last().text.len() as int
        } else {
            0
        }
    }
}

/// More than half of the characters of the spans are in bold spans.
pub open spec fn mostly_bold(spans: Seq<SpanView>) -> bool {
    2 * char_mass(spans, |s: SpanView| s.is_bold) > char_mass(spans, |s: SpanView| true)
}

fn put_space_between(prev: &TextSpan, cur: &TextSpan) -> (r: bool)
    ensures
        r == needs_space(prev@, cur@),
{
    let gap: i64 = cur.x as i64 - (prev.x as i64 + prev.width as i64);
    let count = cur.text.as_str().unicode_len();
    let wide = if count > 0 && cur.width > 0 {
        assert(-0xF_0000_0000 * 0xFFFF_FFFF_FFFF_FFFF <= 5 * gap * count <= 0xF_0000_0000
            * 0xFFFF_FFFF_FFFF_FFFF) by (nonlinear_arith)
            requires
                -0x3_0000_0000 <= gap <= 0x3_0000_0000,
                0 <= count <= 0xFFFF_FFFF_FFFF_FFFF,
        ;
        5 * (gap as i128) * (count as i128) > cur.width as i128
    } else {
        10 * gap > cur.font_size as i64
    };
    if !wide {
        return false;
    }
    let a = to_chars(prev.text.as_str());
    let b = to_chars(cur.text.as_str());
    let spaceless = a.len() > 0 && b.len() > 0 && is_spaceless_script_char(a[a.len() - 1])
        && is_spaceless_script_char(b[0]);
    let after_space = a.len() > 0 && (a[a.len() - 1] == ' ' || a[a.len() - 1] == '\u{00A0}');
    let before_space = b.len() > 0 && (b[0] == ' ' || b[0] == '\u{00A0}');
    !spaceless && !after_space && !before_space
}

impl TextLine {
    /// The line that the spans form: the spans from left to right, at the
    /// baseline and left edge of the first, with their dominant font size.
    /// No span gives an empty line at the origin.
    pub fn from_spans(spans: Vec<TextSpan>) -> (r: TextLine)
        ensures
            r@ == line_of(span_views(spans@)),
    {
        if spans.len() == 0 {
            let r = TextLine {
                spans: Vec::new(),
                y: 0,
                x: 0,
                font_size: 0,
                is_heading: false,
                heading_level: 0,
            };
            assert(span_views(r.spans@) =~= Seq::<SpanView>::empty());
            return r;
        }
        let sorted = sort_spans_by_x(&spans);
        let ghost views = span_views(sorted@);
        proof {
            crate::sorting::lemma_sort_order_sorted(x_keys(span_views(spans@)));
        }
        assert(views.len() == spans.len());
        let n = sorted.len();
        let mut total: u128 = 0;
        let mut weighted: i128 = 0;
        let mut i: usize = 0;
        while i < n
            invariant
                i <= n,
                n == sorted.len(),
                views == span_views(sorted@),
                total == total_weight(views.take(i as int)),
                weighted == weighted_sizes(views.take(i as int)),
                0 <= total <= i * 0xFFFF_FFFF,
                -0x8000_0000 * total <= weighted <= 0x8000_0000 * total,
            decreases n - i,
        {
            assert(views.take(i + 1).drop_last() == views.take(i as int));
            let count = sorted[i].text.as_str().unicode_len();
            let w: u128 = if count > 0xFFFF_FFFF {
                0xFFFF_FFFF
            } else {
                count as u128
            };
            let size = sorted[i].font_size;
            assert(-0x8000_0000 * w <= size * w <= 0x8000_0000 * w) by (nonlinear_arith)
                requires
                    -0x8000_0000 <= size <= 0x7FFF_FFFF,
                    0 <= w,
            ;
            total = total + w;
            weighted = weighted + (size as i128) * (w as i128);
            i += 1;
        }
        assert(views.take(n as int) == views);
        let font_size = if total > 0 {
            crate::units::clamp_wide_to_i32(crate::units::div_trunc_wide(weighted, total as i128))
        } else {
            sorted[0].font_size
        };
        let y = sorted[0].y;
        let x = sorted[0].x;
        TextLine { spans: sorted, y, x, font_size, is_heading: false, heading_level: 0 }
    }

    /// A copy of this line.
    pub fn duplicate(&self) -> (r: TextLine)
        ensures
            r@ == self@,
    {
        TextLine {
            spans: duplicate_spans(&self.spans),
            y: self.y,
            x: self.x,
            font_size: self.font_size,
            is_heading: self.is_heading,
            heading_level: self.heading_level,
        }
    }

    /// The text of the line: the texts of its spans, with a single space
    /// wherever two adjacent spans are apart, do not already bring a space,
    /// and do not meet in characters of a spaceless script.
    pub fn text(&self) -> (r: String)
        ensures
            r@ == joined_text(self@.spans),
    {
        let ghost views = span_views(self.spans@);
        let mut out = String::new();
        let n = self.spans.len();
        let mut i: usize = 0;
        while i < n
            invariant
                i <= n,
                n == self.spans.len(),
                views == span_views(self.spans@),
                out@ == joined_text(views.take(i as int)),
            decreases n - i,
        {
            assert(views.take(i + 1).drop_last() == views.take(i as int));
            if i > 0 {
                assert(views.take(i + 1)[i - 1] == views[i - 1]);
                if put_space_between(&self.spans[i - 1], &self.spans[i]) {
                    push_char(&mut out, ' ');
                }
            }
            append_str(&mut out, self.spans[i].text.as_str());
            proof {
                if i == 0 {
                    assert(out@ =~= views[0].text);
                } else {
                    let sep = if needs_space(views[i - 1], views[i as int]) {
                        seq![' ']
                    } else {
                        Seq::<char>::empty()
                    };
                    assert(out@ =~= joined_text(views.take(i as int)) + sep + views[i as int].text);
                }
            }
            i += 1;
        }
        assert(views.take(n as int) == views);
        out
    }

    /// Tests whether more than half of the line's characters are bold.
    pub fn is_bold(&self) -> (r: bool)
        ensures
            r == mostly_bold(self@.spans),
    {
        let ghost views = span_views(self.spans@);
        let n = self.spans.len();
        let mut bold: u128 = 0;
        let mut total: u128 = 0;
        let mut i: usize = 0;
        while i < n
            invariant
                i <= n,
                n == self.spans.len(),
                views == span_views(self.spans@),
                bold == char_mass(views.take(i as int), |s: SpanView| s.is_bold),
                total == char_mass(views.take(i as int), |s: SpanView| true),
                bold <= total <= i * 0xFFFF_FFFF_FFFF_FFFF,
            decreases n - i,
        {
            assert(views.take(i + 1).drop_last() == views.take(i as int));
            let count = self.spans[i].text.as_str().unicode_len();
            if self.spans[i].is_bold {
                bold = bold + count as u128;
            }
            total = total + count as u128;
            i += 1;
        }
        assert(views.take(n as int) == views);
        bold > total - bold
    }

    /// Tests whether the line's text holds a letter and all its letters are
    /// uppercase.
    pub fn is_uppercase(&self) -> (r: bool)
        ensures
            r == is_uppercase_text(joined_text(self@.spans)),
    {
        let text = self.text();
        let t = to_chars(text.as_str());
        let mut seen = false;
        let mut i: usize = 0;
        while i < t.len()
            invariant
                i <= t.len(),
                t@ == joined_text(self@.spans),
                seen == exists|j: int| 0 <= j < i && is_alphabetic(#[trigger] t@[j]),
                forall|j: int| 0 <= j < i && is_alphabetic(#[trigger] t@[j]) ==> is_uppercase(t@[j]),
            decreases t.len() - i,
        {
            if char_is_alphabetic(t[i]) {
                if !char_is_uppercase(t[i]) {
                    assert(is_alphabetic(t@[i as int]) && !is_uppercase(t@[i as int]));
                    return false;
                }
                seen = true;
            }
            i += 1;
        }
        seen
    }
}

/// A column of the page layout, bounds in thousandths of a point.
#[derive(Debug, Clone, Copy, PartialEq, Eq, Structural)]
pub struct Column {
    /// Left bound.
    pub left: i64,
    /// Right bound.
    pub right: i64,
    /// Position among the columns, 0 for the leftmost.
    pub index: usize,
}

/// A span belongs to a column that holds its left edge or its centre.
pub open spec fn column_holds(c: Column, s: SpanView) -> bool {
    (c.left <= s.x <= c.right) || (2 * c.left <= 2 * s.x + s.width <= 2 * c.right)
}

impl Column {
    /// Tests whether `x` lies within the column, bounds included.
    pub fn contains(&self, x: i64) -> (r: bool)
        ensures
            r == (self.left <= x <= self.right),
    {
        x >= self.left && x <= self.right
    }

    /// Tests whether the span belongs to the column: its left edge or its
    /// centre lies within.
    pub fn contains_span(&self, span: &TextSpan) -> (r: bool)
        ensures
            r == column_holds(*self, span@),
    {
        let x = span.x as i64;
        if self.contains(x) {
            return true;
        }
        let twice_centre: i128 = 2 * (x as i128) + span.width as i128;
        2 * (self.left as i128) <= twice_centre && twice_centre <= 2 * (self.right as i128)
    }
}

/// Width of the bins that the page is cut into: 3 points.
pub const SLICE_WIDTH: i64 = 3000;

/// A page narrower than this has a single column: 250 points.
pub const MIN_PAGE_WIDTH: i64 = 250000;

/// A column is at least this wide: 80 points.
pub const MIN_COLUMN_WIDTH: i64 = 80000;

/// Columns reach this far beyond the text: 10 points.
pub const COLUMN_PADDING: i64 = 10000;

/// The smallest left edge among the spans.
pub open spec fn min_left(spans: Seq<SpanView>) -> int
    recommends
        spans.len() > 0,
    decreases spans.len(),
{
    if spans.len() <= 1 {
        spans[0].x
    } else {
        let rest = min_left(spans.drop_last());
        if spans.last().x < rest {
            spans.last().x
        } else {
            rest
        }
    }
}

/// The largest right edge among the spans.
pub open spec fn max_right(spans: Seq<SpanView>) -> int
    recommends
        spans.len() > 0,
    decreases spans.len(),
{
    if spans.len() <= 1 {
        spans[0].x + spans[0].width
    } else {
        let rest = max_right(spans.drop_last());
        if spans.last().x + spans.last().width > rest {
            spans.last().x + spans.last().width
        } else {
            rest
        }
    }
}

/// The bin that a distance from the left end of the text falls into.
pub open spec fn slice_of(offset: int) -> int {
    if offset < 0 {
        0
    } else {
        offset / 3000
    }
}

/// The span lies over bin `b` of `slices` bins that start at `origin`.
pub open spec fn covers(s: SpanView, origin: int, slices: int, b: int) -> bool {
    let last = slice_of(s.x + s.width - origin);
    slice_of(s.x - origin) <= b && b <= last && b <= slices - 1
}

/// Some span lies over bin `b`.
pub open spec fn occupied(spans: Seq<SpanView>, origin: int, slices: int, b: int) -> bool
    decreases spans.len(),
{
    if spans.len() == 0 {
        false
    } else {
        occupied(spans.drop_last(), origin, slices, b) || covers(spans.last(), origin, slices, b)
    }
}

/// The search for the gutter: the run of free bins under way, and the best
/// run so far. Lengths and positions are in bins.
#[derive(Debug, Clone, Copy, PartialEq, Eq, Structural)]
pub struct GapSearch {
    /// First bin of the run under way.
    pub run_start: usize,
    /// Length of the run under way; 0 where none is.
    pub run_len: usize,
    /// First bin of the best run.
    pub best_start: usize,
    /// Length of the best run; 0 where none was found.
    pub best_len: usize,
    /// Distance of the best run's centre from the centre of the page.
    pub best_dist: usize,
}

/// The search after the run under way has ended. The run becomes the best
/// one if it is at least 10 points wide and either more than one and a half
/// times as wide as the best so far, or at least 0.7 times as wide and
/// nearer to the centre of the page.
pub open spec fn run_closed(g: GapSearch, centre: int) -> GapSearch {
    let middle = g.run_start + g.run_len / 2;
    let dist = if middle >= centre {
        middle - centre
    } else {
        centre - middle
    };
    if g.run_len * 3 >= 10 && (2 * g.run_len > 3 * g.best_len || (10 * g.run_len >= 7
        * g.best_len && dist < g.best_dist)) {
        GapSearch {
            run_len: 0,
            best_start: g.run_start,
            best_len: g.run_len,
            best_dist: dist as usize,
            ..g
        }
    } else {
        GapSearch { run_len: 0, ..g }
    }
}

/// The search after bin `b`, free or not.
pub open spec fn bin_scanned(g: GapSearch, free: bool, b: int, centre: int) -> GapSearch {
    if free {
        if g.run_len == 0 {
            GapSearch { run_start: b as usize, run_len: 1, ..g }
        } else {
            GapSearch { run_len: (g.run_len + 1) as usize, ..g }
        }
    } else if g.run_len > 0 {
        run_closed(g, centre)
    } else {
        g
    }
}

/// Which of the `slices` bins have a span over them.
pub open spec fn occupancy(spans: Seq<SpanView>, origin: int, slices: int) -> Seq<bool> {
    Seq::new(slices as nat, |b: int| occupied(spans, origin, slices, b))
}

/// The search after the bins `from` up to but not including `to`.
pub open spec fn bins_scanned(taken: Seq<bool>, from: int, to: int) -> GapSearch
    decreases to - from,
{
    if to <= from {
        GapSearch { run_start: 0, run_len: 0, best_start: 0, best_len: 0, best_dist: 0 }
    } else {
        bin_scanned(
            bins_scanned(taken, from, to - 1),
            !taken[to - 1],
            to - 1,
            taken.len() as int / 2,
        )
    }
}

/// The widest free run of bins in the central 70% of the page, as the
/// search rates them.
pub open spec fn best_gap(taken: Seq<bool>) -> GapSearch {
    let n = taken.len() as int;
    let g = bins_scanned(taken, n * 15 / 100, n * 85 / 100);
    if g.run_len > 0 {
        run_closed(g, n / 2)
    } else {
        g
    }
}

/// The number of spans whose centre lies left of `gutter`.
pub open spec fn count_left(spans: Seq<SpanView>, gutter: int) -> int
    decreases spans.len(),
{
    if spans.len() == 0 {
        0
    } else {
        count_left(spans.drop_last(), gutter) + if 2 * spans.last().x + spans.last().width < 2
            * gutter {
            1int
        } else {
            0int
        }
    }
}

/// The one column that spans the text.
pub open spec fn single_column(lo: int, hi: int) -> Seq<Column> {
    seq![Column { left: (lo - 10000) as i64, right: (hi + 10000) as i64, index: 0 }]
}

/// The columns of a page: one, or two where a gutter at least 12 points
/// wide parts the text into columns of at least 80 points, each with at
/// least two spans and a tenth of all spans.
pub open spec fn columns_of(spans: Seq<SpanView>) -> Seq<Column> {
    if spans.len() == 0 {
        Seq::empty()
    } else {
        let lo = min_left(spans);
        let hi = max_right(spans);
        if hi - lo < 250000 {
            single_column(lo, hi)
        } else {
            let slices = (hi - lo) / 3000 + 1;
            let g = best_gap(occupancy(spans, lo, slices));
            let gutter = lo + g.best_start * 3000 + g.best_len * 1500;
            let left = count_left(spans, gutter);
            let right = spans.len() - left;
            let need = if spans.len() / 10 > 2 {
                spans.len() as int / 10
            } else {
                2
            };
            if g.best_len * 3 < 12 || gutter - lo < 80000 || hi - gutter < 80000 || left < need
                || right < need {
                single_column(lo, hi)
            } else {
                seq![
                    Column { left: (lo - 10000) as i64, right: gutter as i64, index: 0 },
                    Column { left: gutter as i64, right: (hi + 10000) as i64, index: 1 },
                ]
            }
        }
    }
}

fn bin_of(offset: i64) -> (r: usize)
    requires
        offset <= 0x2_0000_0000,
    ensures
        r == slice_of(offset as int),
        r <= 2863311,
{
    if offset < 0 {
        0
    } else {
        (offset / SLICE_WIDTH) as usize
    }
}

fn close_run(g: GapSearch, centre: usize) -> (r: GapSearch)
    requires
        g.run_start + g.run_len <= 2863312,
        g.best_start + g.best_len <= 2863312,
        centre <= 2863312,
    ensures
        r == run_closed(g, centre as int),
        r.best_start + r.best_len <= 2863312,
        r.run_len == 0,
{
    let middle = g.run_start + g.run_len / 2;
    let dist = if middle >= centre {
        middle - centre
    } else {
        centre - middle
    };
    let run = g.run_len as u64;
    let best = g.best_len as u64;
    if run * 3 >= 10 && (2 * run > 3 * best || (10 * run >= 7 * best && dist < g.best_dist)) {
        GapSearch {
            run_start: g.run_start,
            run_len: 0,
            best_start: g.run_start,
            best_len: g.run_len,
            best_dist: dist,
        }
    } else {
        GapSearch {
            run_start: g.run_start,
            run_len: 0,
            best_start: g.best_start,
            best_len: g.best_len,
            best_dist: g.best_dist,
        }
    }
}

/// The left end and the right end of the text.
pub(crate) fn text_extent(spans: &Vec<TextSpan>) -> (r: (i64, i64))
    requires
        spans.len() > 0,
    ensures
        r.0 == min_left(span_views(spans@)),
        r.1 == max_right(span_views(spans@)),
        -0x8000_0000 <= r.0 <= 0x7FFF_FFFF,
        -0x1_0000_0000 <= r.1 <= 0xFFFF_FFFF,
{
    let ghost views = span_views(spans@);
    let count = spans.len();
    let mut lo: i64 = spans[0].x as i64;
    let mut hi: i64 = spans[0].x as i64 + spans[0].width as i64;
    let mut i: usize = 1;
    assert(views.take(1).drop_last() =~= views.take(0));
    while i < count
        invariant
            1 <= i <= count,
            count == spans.len(),
            views == span_views(spans@),
            lo == min_left(views.take(i as int)),
            hi == max_right(views.take(i as int)),
            -0x8000_0000 <= lo <= 0x7FFF_FFFF,
            -0x1_0000_0000 <= hi <= 0xFFFF_FFFF,
        decreases count - i,
    {
        assert(views.take(i + 1).drop_last() == views.take(i as int));
        let x = spans[i].x as i64;
        let right = x + spans[i].width as i64;
        if x < lo {
            lo = x;
        }
        if right > hi {
            hi = right;
        }
        i += 1;
    }
    assert(views.take(count as int) == views);
    (lo, hi)
}

/// Marks the bins that some span lies over.
fn mark_bins(spans: &Vec<TextSpan>, lo: i64, slices: usize) -> (taken: Vec<bool>)
    requires
        1 <= slices <= 2863312,
        -0x8000_0000 <= lo <= 0x7FFF_FFFF,
    ensures
        taken@ == occupancy(span_views(spans@), lo as int, slices as int),
{
    let ghost views = span_views(spans@);
    let count = spans.len();
    let mut taken: Vec<bool> = Vec::new();
    let mut b: usize = 0;
    while b < slices
        invariant
            b <= slices,
            taken.len() == b,
            forall|k: int| 0 <= k < b ==> !(#[trigger] taken@[k]),
        decreases slices - b,
    {
        taken.push(false);
        b += 1;
    }
    let mut i: usize = 0;
    while i < count
        invariant
            i <= count,
            count == spans.len(),
            views == span_views(spans@),
            taken.len() == slices,
            1 <= slices <= 2863312,
            -0x8000_0000 <= lo <= 0x7FFF_FFFF,
            forall|k: int|
                0 <= k < slices ==> #[trigger] taken@[k] == occupied(
                    views.take(i as int),
                    lo as int,
                    slices as int,
                    k,
                ),
        decreases count - i,
    {
        assert(views.take(i + 1).drop_last() == views.take(i as int));
        let ghost before = taken@;
        let x = spans[i].x as i64;
        let first = bin_of(x - lo);
        let past = bin_of(x + spans[i].width as i64 - lo);
        let last = if past < slices - 1 {
            past
        } else {
            slices - 1
        };
        let mut k: usize = first;
        while k <= last
            invariant
                first <= k,
                k <= last + 1 || k == first,
                last < slices,
                taken.len() == slices,
                before.len() == slices,
                forall|m: int|
                    0 <= m < slices ==> #[trigger] taken@[m] == (before[m] || (first <= m < k)),
            decreases last + 1 - k,
        {
            taken.set(k, true);
            k += 1;
        }
        assert forall|m: int| 0 <= m < slices implies #[trigger] taken@[m] == occupied(
            views.take(i + 1),
            lo as int,
            slices as int,
            m,
        ) by {
            assert(views.take(i + 1).last() == views[i as int]);
            assert(views[i as int] == spans@[i as int]@);
            assert(covers(views[i as int], lo as int, slices as int, m) == (first <= m <= last));
        }
        i += 1;
    }
    assert(views.take(count as int) == views);
    assert(taken@ =~= occupancy(views, lo as int, slices as int));
    taken
}

/// Searches the central bins for the best free run.
fn find_gap(taken: &Vec<bool>) -> (g: GapSearch)
    requires
        taken.len() <= 2863312,
    ensures
        g == best_gap(taken@),
        g.best_start + g.best_len <= 2863312,
{
    let slices = taken.len();
    let from = slices * 15 / 100;
    let to = slices * 85 / 100;
    let centre = slices / 2;
    let mut g = GapSearch { run_start: 0, run_len: 0, best_start: 0, best_len: 0, best_dist: 0 };
    let mut b: usize = from;
    while b < to
        invariant
            from <= b <= to,
            to <= slices,
            centre == slices / 2,
            taken.len() == slices,
            slices <= 2863312,
            g == bins_scanned(taken@, from as int, b as int),
            g.run_len > 0 ==> g.run_start + g.run_len == b,
            g.run_len <= b,
            g.best_start + g.best_len <= 2863312,
        decreases to - b,
    {
        if !taken[b] {
            if g.run_len == 0 {
                g.run_start = b;
                g.run_len = 1;
            } else {
                g.run_len = g.run_len + 1;
            }
        } else if g.run_len > 0 {
            g = close_run(g, centre);
        }
        b += 1;
    }
    if g.run_len > 0 {
        g = close_run(g, centre);
    }
    g
}

/// Counts the spans whose centre lies left of `gutter`.
fn count_left_of(spans: &Vec<TextSpan>, gutter: i64) -> (left: usize)
    requires
        -0x1_0000_0000_0000 <= gutter <= 0x1_0000_0000_0000,
    ensures
        left == count_left(span_views(spans@), gutter as int),
        left <= spans.len(),
{
    let ghost views = span_views(spans@);
    let count = spans.len();
    let mut left: usize = 0;
    let mut i: usize = 0;
    while i < count
        invariant
            i <= count,
            count == spans.len(),
            views == span_views(spans@),
            left == count_left(views.take(i as int), gutter as int),
            left <= i,
            -0x1_0000_0000_0000 <= gutter <= 0x1_0000_0000_0000,
        decreases count - i,
    {
        assert(views.take(i + 1).drop_last() == views.take(i as int));
        if 2 * (spans[i].x as i64) + (spans[i].width as i64) < 2 * gutter {
            left += 1;
        }
        i += 1;
    }
    assert(views.take(count as int) == views);
    left
}

/// Finds the columns of a page from its spans; see [`columns_of`].
pub fn detect_columns(spans: &Vec<TextSpan>) -> (r: Vec<Column>)
    ensures
        r@ == columns_of(span_views(spans@)),
{
    let count = spans.len();
    if count == 0 {
        return Vec::new();
    }
    let (lo, hi) = text_extent(spans);
    let mut single: Vec<Column> = Vec::new();
    single.push(Column { left: lo - COLUMN_PADDING, right: hi + COLUMN_PADDING, index: 0 });
    assert(single@ =~= single_column(lo as int, hi as int));
    if hi - lo < MIN_PAGE_WIDTH {
        return single;
    }
    let slices: usize = ((hi - lo) / SLICE_WIDTH) as usize + 1;
    let taken = mark_bins(spans, lo, slices);
    let g = find_gap(&taken);
    let gutter: i64 = lo + (g.best_start as i64) * SLICE_WIDTH + (g.best_len as i64) * 1500;
    let left = count_left_of(spans, gutter);
    let right = count - left;
    let need = if count / 10 > 2 {
        count / 10
    } else {
        2
    };
    if (g.best_len as u64) * 3 < 12 || gutter - lo < MIN_COLUMN_WIDTH || hi - gutter
        < MIN_COLUMN_WIDTH || left < need || right < need {
        return single;
    }
    let mut two: Vec<Column> = Vec::new();
    two.push(Column { left: lo - COLUMN_PADDING, right: gutter, index: 0 });
    two.push(Column { left: gutter, right: hi + COLUMN_PADDING, index: 1 });
    assert(two@ =~= seq![
        Column { left: (lo - 10000) as i64, right: gutter as i64, index: 0 },
        Column { left: gutter as i64, right: (hi + 10000) as i64, index: 1 },
    ]);
    two
}

/// The values of a sequence of groups of spans.
pub open spec fn group_views(g: Seq<Vec<TextSpan>>) -> Seq<Seq<SpanView>> {
    g.map_values(|v: Vec<TextSpan>| span_views(v@))
}

/// The span lies on the baseline `line_y`: no further from it than `factor`
/// thousandths of the span's font size.
pub open spec fn on_baseline(line_y: int, s: SpanView, factor: int) -> bool {
    1000 * crate::units::abs(s.y - line_y) <= factor * s.font_size
}

/// The spans in groups of one baseline each. A span joins the last group
/// when it lies on the baseline of that group's first span, and opens a new
/// group otherwise.
pub open spec fn grouped(spans: Seq<SpanView>, factor: int) -> Seq<Seq<SpanView>>
    decreases spans.len(),
{
    if spans.len() == 0 {
        Seq::empty()
    } else {
        let g = grouped(spans.drop_last(), factor);
        let s = spans.last();
        if g.len() > 0 && on_baseline(g.last()[0].y, s, factor) {
            g.update(g.len() - 1, g.last().push(s))
        } else {
            g.push(seq![s])
        }
    }
}

/// Every group holds a span.
pub proof fn lemma_groups_not_empty(spans: Seq<SpanView>, factor: int)
    ensures
        forall|i: int|
            0 <= i < grouped(spans, factor).len() ==> (#[trigger] grouped(spans, factor)[i]).len()
                > 0,
        spans.len() > 0 ==> grouped(spans, factor).len() > 0,
    decreases spans.len(),
{
    if spans.len() > 0 {
        lemma_groups_not_empty(spans.drop_last(), factor);
        let g = grouped(spans.drop_last(), factor);
        let r = grouped(spans, factor);
        assert forall|i: int| 0 <= i < r.len() implies (#[trigger] r[i]).len() > 0 by {
            if i < g.len() - 1 {
                assert(r[i] == g[i]);
            } else if i < g.len() && !(g.len() > 0 && on_baseline(
                g.last()[0].y,
                spans.last(),
                factor,
            )) {
                assert(r[i] == g[i]);
            }
        }
    }
}

/// Groups spans, given in reading order, by baseline; see [`grouped`].
pub fn group_by_baseline(spans: &Vec<TextSpan>, factor: i32) -> (r: Vec<Vec<TextSpan>>)
    ensures
        group_views(r@) == grouped(span_views(spans@), factor as int),
{
    let ghost views = span_views(spans@);
    let n = spans.len();
    let mut groups: Vec<Vec<TextSpan>> = Vec::new();
    if n == 0 {
        assert(group_views(groups@) =~= grouped(views, factor as int));
        return groups;
    }
    let mut current: Vec<TextSpan> = Vec::new();
    current.push(spans[0].duplicate());
    let mut line_y: i32 = spans[0].y;
    let mut i: usize = 1;
    proof {
        assert(views.take(1).drop_last() =~= views.take(0));
        assert(grouped(views.take(0), factor as int) =~= Seq::<Seq<SpanView>>::empty());
        assert(span_views(current@) =~= seq![views[0]]);
        assert(group_views(groups@).push(span_views(current@)) =~= grouped(
            views.take(1),
            factor as int,
        ));
    }
    while i < n
        invariant
            1 <= i <= n,
            n == spans.len(),
            views == span_views(spans@),
            current.len() > 0,
            line_y == current@[0].y,
            group_views(groups@).push(span_views(current@)) == grouped(
                views.take(i as int),
                factor as int,
            ),
        decreases n - i,
    {
        let ghost before = grouped(views.take(i as int), factor as int);
        let ghost closed = group_views(groups@);
        let ghost open = span_views(current@);
        assert(views.take(i + 1).drop_last() == views.take(i as int));
        assert(before.last() == open);
        assert(open[0] == current@[0]@);
        let span = spans[i].duplicate();
        let dy = crate::units::distance(span.y, line_y);
        let size = span.font_size;
        assert(-0x4000_0000_0000_0000 <= factor * size <= 0x4000_0000_0000_0000)
            by (nonlinear_arith)
            requires
                -0x8000_0000 <= factor <= 0x7FFF_FFFF,
                -0x8000_0000 <= size <= 0x7FFF_FFFF,
        ;
        if 1000 * (dy as i128) <= (factor as i128) * (size as i128) {
            current.push(span);
            assert(span_views(current@) =~= open.push(span@));
            assert(closed.push(span_views(current@)) =~= before.update(
                before.len() - 1,
                before.last().push(span@),
            ));
        } else {
            line_y = span.y;
            let mut fresh: Vec<TextSpan> = Vec::new();
            fresh.push(span);
            groups.push(current);
            current = fresh;
            assert(group_views(groups@) =~= closed.push(open));
            assert(span_views(current@) =~= seq![span@]);
        }
        i += 1;
    }
    assert(views.take(n as int) == views);
    let ghost closed = group_views(groups@);
    let ghost open = span_views(current@);
    groups.push(current);
    assert(group_views(groups@) =~= closed.push(open));
    groups
}

/// The lines that groups of spans form.
pub open spec fn lines_of(groups: Seq<Seq<SpanView>>) -> Seq<LineView> {
    groups.map_values(|g: Seq<SpanView>| line_of(g))
}

/// Forms a line from each group of spans.
pub fn lines_from_groups(groups: &Vec<Vec<TextSpan>>) -> (r: Vec<TextLine>)
    ensures
        line_views(r@) == lines_of(group_views(groups@)),
{
    let mut lines: Vec<TextLine> = Vec::new();
    let mut i: usize = 0;
    while i < groups.len()
        invariant
            i <= groups.len(),
            line_views(lines@) == lines_of(group_views(groups@)).take(i as int),
        decreases groups.len() - i,
    {
        let ghost before = line_views(lines@);
        let line = TextLine::from_spans(duplicate_spans(&groups[i]));
        lines.push(line);
        assert(line_views(lines@) =~= before.push(line@));
        assert(line_views(lines@) =~= lines_of(group_views(groups@)).take(i + 1));
        i += 1;
    }
    assert(lines_of(group_views(groups@)).take(groups.len() as int) =~= lines_of(
        group_views(groups@),
    ));
    lines
}

/// A span lies on a line within three tenths of its font size.
pub const LINE_TOLERANCE: i32 = 300;

/// The lines of a single column: the spans in reading order, grouped by
/// baseline.
pub open spec fn single_column_lines(spans: Seq<SpanView>) -> Seq<LineView> {
    lines_of(grouped(sorted_for_reading(spans), 300))
}

/// Groups the spans of a single column into lines, top to bottom.
pub fn group_spans_into_lines_single_column(spans: &Vec<TextSpan>) -> (r: Vec<TextLine>)
    ensures
        line_views(r@) == single_column_lines(span_views(spans@)),
{
    let sorted = sort_spans_for_reading(spans);
    let groups = group_by_baseline(&sorted, LINE_TOLERANCE);
    lines_from_groups(&groups)
}

/// The index of the first column that holds the span, or the number of
/// columns where none does.
pub open spec fn first_holder(columns: Seq<Column>, s: SpanView) -> int
    decreases columns.len(),
{
    if columns.len() == 0 {
        0
    } else if column_holds(columns[0], s) {
        0
    } else {
        1 + first_holder(columns.drop_first(), s)
    }
}

/// The column that a span is assigned to: the first that holds it, and the
/// first of all where none does.
pub open spec fn column_index(columns: Seq<Column>, s: SpanView) -> int {
    let i = first_holder(columns, s);
    if i < columns.len() {
        i
    } else {
        0
    }
}

/// The spans assigned to column `c`, in their order.
pub open spec fn spans_of_column(spans: Seq<SpanView>, columns: Seq<Column>, c: int) -> Seq<
    SpanView,
>
    decreases spans.len(),
{
    if spans.len() == 0 {
        Seq::empty()
    } else if column_index(columns, spans.last()) == c {
        spans_of_column(spans.drop_last(), columns, c).push(spans.last())
    } else {
        spans_of_column(spans.drop_last(), columns, c)
    }
}

/// The lines of the first `upto` columns, column after column.
pub open spec fn column_lines(spans: Seq<SpanView>, columns: Seq<Column>, upto: int) -> Seq<
    LineView,
>
    decreases upto,
{
    if upto <= 0 {
        Seq::empty()
    } else {
        column_lines(spans, columns, upto - 1) + single_column_lines(
            spans_of_column(spans, columns, upto - 1),
        )
    }
}

/// For each line of [`column_lines`], the index of its column.
pub open spec fn column_tags(spans: Seq<SpanView>, columns: Seq<Column>, upto: int) -> Seq<int>
    decreases upto,
{
    if upto <= 0 {
        Seq::empty()
    } else {
        column_tags(spans, columns, upto - 1) + Seq::new(
            single_column_lines(spans_of_column(spans, columns, upto - 1)).len(),
            |i: int| upto - 1,
        )
    }
}

/// The keys that order lines from top to bottom, and by column on one
/// baseline.
pub open spec fn line_keys(lines: Seq<LineView>, tags: Seq<int>) -> Seq<Key> {
    Seq::new(lines.len(), |i: int| ((-lines[i].y) as i64, tags[i] as i64))
}

/// The lines of a page. With a single column these are the lines of that
/// column; with more, the lines of all columns, from top to bottom, the
/// left column first where two lines share a baseline.
pub open spec fn page_lines(spans: Seq<SpanView>) -> Seq<LineView> {
    if spans.len() == 0 {
        Seq::empty()
    } else {
        let columns = columns_of(spans);
        if columns.len() <= 1 {
            single_column_lines(spans)
        } else {
            let lines = column_lines(spans, columns, columns.len() as int);
            let tags = column_tags(spans, columns, columns.len() as int);
            reordered(lines, sort_order(line_keys(lines, tags)))
        }
    }
}

/// Finds the column that a span is assigned to.
fn assign_column(columns: &Vec<Column>, span: &TextSpan) -> (r: usize)
    ensures
        r == column_index(columns@, span@),
{
    let n = columns.len();
    let mut i: usize = 0;
    assert(columns@.subrange(0, n as int) == columns@);
    while i < n
        invariant
            i <= n,
            n == columns.len(),
            first_holder(columns@, span@) == i + first_holder(
                columns@.subrange(i as int, n as int),
                span@,
            ),
        decreases n - i,
    {
        assert(columns@.subrange(i as int, n as int)[0] == columns@[i as int]);
        if columns[i].contains_span(span) {
            return i;
        }
        assert(columns@.subrange(i as int, n as int).drop_first() == columns@.subrange(
            i + 1,
            n as int,
        ));
        i += 1;
    }
    0
}

/// Copies of the spans assigned to column `c`.
fn column_spans(spans: &Vec<TextSpan>, columns: &Vec<Column>, c: usize) -> (r: Vec<TextSpan>)
    ensures
        span_views(r@) == spans_of_column(span_views(spans@), columns@, c as int),
{
    let ghost views = span_views(spans@);
    let mut r: Vec<TextSpan> = Vec::new();
    let mut i: usize = 0;
    assert(span_views(r@) =~= spans_of_column(views.take(0), columns@, c as int));
    while i < spans.len()
        invariant
            i <= spans.len(),
            views == span_views(spans@),
            span_views(r@) == spans_of_column(views.take(i as int), columns@, c as int),
        decreases spans.len() - i,
    {
        assert(views.take(i + 1).drop_last() == views.take(i as int));
        if assign_column(columns, &spans[i]) == c {
            let ghost before = span_views(r@);
            let s = spans[i].duplicate();
            r.push(s);
            assert(span_views(r@) =~= before.push(s@));
        }
        i += 1;
    }
    assert(views.take(spans.len() as int) == views);
    r
}

/// Copies of the lines at the indices that `order` lists, in that order.
pub(crate) fn lines_in_order(lines: &Vec<TextLine>, order: &Vec<usize>) -> (r: Vec<TextLine>)
    requires
        forall|i: int| 0 <= i < order.len() ==> #[trigger] order@[i] < lines.len(),
    ensures
        line_views(r@) == reordered(line_views(lines@), as_ints(order@)),
{
    let mut r: Vec<TextLine> = Vec::new();
    let mut i: usize = 0;
    while i < order.len()
        invariant
            i <= order.len(),
            forall|j: int| 0 <= j < order.len() ==> #[trigger] order@[j] < lines.len(),
            line_views(r@) == reordered(line_views(lines@), as_ints(order@)).take(i as int),
        decreases order.len() - i,
    {
        let ghost before = line_views(r@);
        let l = lines[order[i]].duplicate();
        r.push(l);
        assert(line_views(r@) =~= before.push(l@));
        assert(line_views(r@) =~= reordered(line_views(lines@), as_ints(order@)).take(i + 1));
        i += 1;
    }
    assert(reordered(line_views(lines@), as_ints(order@)).take(order.len() as int) =~= reordered(
        line_views(lines@),
        as_ints(order@),
    ));
    r
}

/// Groups the spans of a page into lines; see [`page_lines`].
pub fn group_spans_into_lines(spans: &Vec<TextSpan>) -> (r: Vec<TextLine>)
    ensures
        line_views(r@) == page_lines(span_views(spans@)),
{
    let ghost views = span_views(spans@);
    if spans.len() == 0 {
        let r: Vec<TextLine> = Vec::new();
        assert(line_views(r@) =~= Seq::<LineView>::empty());
        return r;
    }
    let columns = detect_columns(spans);
    if columns.len() <= 1 {
        return group_spans_into_lines_single_column(spans);
    }
    let mut all: Vec<TextLine> = Vec::new();
    let mut keys: Vec<Key> = Vec::new();
    let mut c: usize = 0;
    assert(line_views(all@) =~= column_lines(views, columns@, 0));
    assert(keys@ =~= line_keys(column_lines(views, columns@, 0), column_tags(views, columns@, 0)));
    while c < columns.len()
        invariant
            c <= columns.len(),
            views == span_views(spans@),
            line_views(all@) == column_lines(views, columns@, c as int),
            column_tags(views, columns@, c as int).len() == all.len(),
            keys@ == line_keys(
                column_lines(views, columns@, c as int),
                column_tags(views, columns@, c as int),
            ),
        decreases columns.len() - c,
    {
        let own = column_spans(spans, &columns, c);
        let lines = group_spans_into_lines_single_column(&own);
        let ghost done = line_views(all@);
        let ghost tags = column_tags(views, columns@, c as int);
        let ghost fresh = line_views(lines@);
        let ghost old_keys = keys@;
        let mut k: usize = 0;
        while k < lines.len()
            invariant
                k <= lines.len(),
                fresh == line_views(lines@),
                done.len() == tags.len(),
                old_keys == line_keys(done, tags),
                line_views(all@) == done + fresh.take(k as int),
                keys@ == line_keys(
                    done + fresh.take(k as int),
                    tags + Seq::new(k as nat, |i: int| c as int),
                ),
            decreases lines.len() - k,
        {
            let ghost before = line_views(all@);
            let l = lines[k].duplicate();
            keys.push((-(l.y as i64), c as i64));
            all.push(l);
            assert(line_views(all@) =~= before.push(l@));
            assert(line_views(all@) =~= done + fresh.take(k + 1));
            assert(keys@ =~= line_keys(
                done + fresh.take(k + 1),
                tags + Seq::new((k + 1) as nat, |i: int| c as int),
            ));
            k += 1;
        }
        assert(fresh.take(lines.len() as int) == fresh);
        c += 1;
    }
    let order = sorted_order(&keys);
    lines_in_order(&all, &order)
}

/// The line with its heading level set from its font size. A level above 0
/// makes the line a heading.
pub open spec fn with_heading(l: LineView, body: int, sizes: Seq<i32>) -> LineView {
    let level = heading_level(body, sizes, l.font_size);
    if level > 0 {
        LineView { is_heading: true, heading_level: level, ..l }
    } else {
        l
    }
}

/// The lines with their heading levels set.
pub open spec fn with_headings(lines: Seq<LineView>, body: int, sizes: Seq<i32>) -> Seq<LineView> {
    lines.map_values(|l: LineView| with_heading(l, body, sizes))
}

/// Marks the lines whose font size makes them headings.
pub fn detect_headings(stats: &FontStatistics, lines: Vec<TextLine>) -> (r: Vec<TextLine>)
    ensures
        line_views(r@) == with_headings(
            line_views(lines@),
            stats.body_size as int,
            stats.heading_sizes@,
        ),
{
    let ghost expected = with_headings(
        line_views(lines@),
        stats.body_size as int,
        stats.heading_sizes@,
    );
    let mut r: Vec<TextLine> = Vec::new();
    let mut i: usize = 0;
    while i < lines.len()
        invariant
            i <= lines.len(),
            expected == with_headings(
                line_views(lines@),
                stats.body_size as int,
                stats.heading_sizes@,
            ),
            line_views(r@) == expected.take(i as int),
        decreases lines.len() - i,
    {
        let ghost before = line_views(r@);
        let mut line = lines[i].duplicate();
        let level = stats.get_heading_level(line.font_size, false);
        if level > 0 {
            line.is_heading = true;
            line.heading_level = level;
        }
        r.push(line);
        assert(line_views(r@) =~= before.push(line@));
        assert(line_views(r@) =~= expected.take(i + 1));
        i += 1;
    }
    assert(expected.take(lines.len() as int) =~= expected);
    r
}

/// What a block of lines is.
#[derive(Debug, Clone, Copy, PartialEq, Eq, Structural)]
pub enum BlockType {
    /// A heading.
    Heading,
    /// A paragraph of body text.
    Paragraph,
    /// An item of a list.
    ListItem,
    /// Not classified.
    Unknown,
}

/// A block of consecutive lines: a heading or a paragraph.
#[derive(Debug)]
pub struct TextBlock {
    /// The lines, top to bottom.
    pub lines: Vec<TextLine>,
    /// What the block is.
    pub block_type: BlockType,
    /// The heading level, 1 to 6, or 0 for a block that is no heading.
    pub heading_level: u8,
}

/// The mathematical value of a [`TextBlock`].
pub struct BlockView {
    pub lines: Seq<LineView>,
    pub block_type: BlockType,
    pub heading_level: int,
}

impl View for TextBlock {
    type V = BlockView;

    open spec fn view(&self) -> BlockView {
        BlockView {
            lines: line_views(self.lines@),
            block_type: self.block_type,
            heading_level: self.heading_level as int,
        }
    }
}

/// The values of a sequence of blocks.
pub open spec fn block_views(v: Seq<TextBlock>) -> Seq<BlockView> {
    v.map_values(|b: TextBlock| b@)
}

/// The texts of the lines, joined by single spaces.
pub open spec fn block_text(lines: Seq<LineView>) -> Seq<char>
    decreases lines.len(),
{
    if lines.len() == 0 {
        Seq::empty()
    } else if lines.len() == 1 {
        joined_text(lines[0].spans)
    } else {
        block_text(lines.drop_last()) + seq![' '] + joined_text(lines.last().spans)
    }
}

impl TextBlock {
    /// A block of the given lines, with heading level 0.
    pub fn new(lines: Vec<TextLine>, block_type: BlockType) -> (r: TextBlock)
        ensures
            r@ == (BlockView { lines: line_views(lines@), block_type, heading_level: 0 }),
    {
        TextBlock { lines, block_type, heading_level: 0 }
    }

    /// The text of the block: the texts of its lines, joined by single
    /// spaces.
    pub fn text(&self) -> (r: String)
        ensures
            r@ == block_text(self@.lines),
    {
        let ghost views = line_views(self.lines@);
        let mut out = String::new();
        let mut i: usize = 0;
        while i < self.lines.len()
            invariant
                i <= self.lines.len(),
                views == line_views(self.lines@),
                out@ == block_text(views.take(i as int)),
            decreases self.lines.len() - i,
        {
            assert(views.take(i + 1).drop_last() == views.take(i as int));
            let ghost before = out@;
            if i > 0 {
                push_char(&mut out, ' ');
            }
            let t = self.lines[i].text();
            append_str(&mut out, t.as_str());
            proof {
                assert(views[i as int] == self.lines@[i as int]@);
                if i == 0 {
                    assert(out@ =~= joined_text(views[0].spans));
                } else {
                    assert(out@ =~= before + seq![' '] + joined_text(views[i as int].spans));
                }
            }
            i += 1;
        }
        assert(views.take(self.lines.len() as int) == views);
        out
    }

    /// Tests whether the block has no line or only blank text.
    pub fn is_empty(&self) -> (r: bool)
        ensures
            r == (self@.lines.len() == 0 || crate::text::is_blank(block_text(self@.lines))),
    {
        if self.lines.len() == 0 {
            return true;
        }
        let t = self.text();
        crate::text::is_blank_str(t.as_str())
    }
}

/// The spacing of the lines of a page: the sum and the number of the
/// distances between consecutive baselines that exceed a tenth of a point.
pub struct Spacing {
    pub sum: int,
    pub count: int,
}

/// The spacing over the first lines; see [`Spacing`].
pub open spec fn spacing_of(lines: Seq<LineView>) -> Spacing
    decreases lines.len(),
{
    if lines.len() < 2 {
        Spacing { sum: 0, count: 0 }
    } else {
        let rest = spacing_of(lines.drop_last());
        let d = crate::units::abs(lines[lines.len() - 2].y - lines.last().y);
        if d > 100 {
            Spacing { sum: rest.sum + d, count: rest.count + 1 }
        } else {
            rest
        }
    }
}

/// The mean line spacing as a fraction; 12 points where no distance counts.
pub open spec fn mean_spacing(lines: Seq<LineView>) -> Spacing {
    let s = spacing_of(lines);
    if s.count == 0 {
        Spacing { sum: 12000, count: 1 }
    } else {
        s
    }
}

/// A new block starts between two consecutive lines: at a heading, after a
/// heading, at a gap of more than one and a half times the mean spacing, at
/// a change of font size of more than a point, or at a change of the left
/// edge of more than 20 points.
pub open spec fn breaks_block(prev: LineView, cur: LineView, mean: Spacing) -> bool {
    cur.is_heading || prev.is_heading || 2 * mean.count * crate::units::abs(prev.y - cur.y) > 3
        * mean.sum || crate::units::abs(prev.font_size - cur.font_size) > 1000
        || crate::units::abs(prev.x - cur.x) > 20000
}

/// The lines in groups of one block each.
pub open spec fn block_groups(lines: Seq<LineView>, mean: Spacing) -> Seq<Seq<LineView>>
    decreases lines.len(),
{
    if lines.len() == 0 {
        Seq::empty()
    } else {
        let g = block_groups(lines.drop_last(), mean);
        let l = lines.last();
        if g.len() > 0 && !breaks_block(lines[lines.len() - 2], l, mean) {
            g.update(g.len() - 1, g.last().push(l))
        } else {
            g.push(seq![l])
        }
    }
}

/// Some line is a heading.
pub open spec fn any_heading(lines: Seq<LineView>) -> bool
    decreases lines.len(),
{
    if lines.len() == 0 {
        false
    } else {
        any_heading(lines.drop_last()) || lines.last().is_heading
    }
}

/// The lowest heading level among the lines that are headings; 255 where
/// none is.
pub open spec fn lowest_level(lines: Seq<LineView>) -> int
    decreases lines.len(),
{
    if lines.len() == 0 {
        255
    } else {
        let rest = lowest_level(lines.drop_last());
        if lines.last().is_heading && lines.last().heading_level < rest {
            lines.last().heading_level
        } else {
            rest
        }
    }
}

/// The block that a group of lines forms: a heading if any of its lines is
/// one, at the lowest level among them; a paragraph otherwise.
pub open spec fn block_of(lines: Seq<LineView>) -> BlockView {
    if any_heading(lines) {
        BlockView { lines, block_type: BlockType::Heading, heading_level: lowest_level(lines) }
    } else {
        BlockView { lines, block_type: BlockType::Paragraph, heading_level: 0 }
    }
}

/// The blocks of a page.
pub open spec fn page_blocks(lines: Seq<LineView>) -> Seq<BlockView> {
    block_groups(lines, mean_spacing(lines)).map_values(|g: Seq<LineView>| block_of(g))
}

/// The sum and the number of the line distances that count; the default
/// where none does.
fn measure_spacing(lines: &Vec<TextLine>) -> (r: (u128, u128))
    ensures
        r.0 == mean_spacing(line_views(lines@)).sum,
        r.1 == mean_spacing(line_views(lines@)).count,
        r.0 <= 0x1_0000_0000 * lines.len() + 12000,
        1 <= r.1 <= lines.len() + 1,
{
    let ghost views = line_views(lines@);
    let n = lines.len();
    let mut sum: u128 = 0;
    let mut count: u128 = 0;
    if n >= 2 {
        let mut i: usize = 1;
        assert(views.take(1).len() < 2);
        while i < n
            invariant
                1 <= i <= n,
                n == lines.len(),
                views == line_views(lines@),
                sum == spacing_of(views.take(i as int)).sum,
                count == spacing_of(views.take(i as int)).count,
                sum <= 0x1_0000_0000 * i,
                count <= i,
            decreases n - i,
        {
            assert(views.take(i + 1).drop_last() == views.take(i as int));
            assert(views.take(i + 1)[i - 1] == views[i - 1]);
            assert(views[i - 1] == lines@[i - 1]@ && views[i as int] == lines@[i as int]@);
            let d = crate::units::distance(lines[i - 1].y, lines[i].y);
            if d > 100 {
                sum = sum + d as u128;
                count = count + 1;
            }
            i += 1;
        }
        assert(views.take(n as int) == views);
    }
    if count == 0 {
        (12000, 1)
    } else {
        (sum, count)
    }
}

fn starts_block(prev: &TextLine, cur: &TextLine, sum: u128, count: u128) -> (r: bool)
    requires
        sum <= 0x1_0000_0000_0000_0000_0000_0000,
        count <= 0x1_0000_0000_0000_0000,
    ensures
        r == breaks_block(prev@, cur@, Spacing { sum: sum as int, count: count as int }),
{
    if cur.is_heading || prev.is_heading {
        return true;
    }
    let dy = crate::units::distance(prev.y, cur.y);
    assert(0 <= 2 * count * dy <= 2 * 0x1_0000_0000_0000_0000 * 0x1_0000_0000) by (nonlinear_arith)
        requires
            0 <= count <= 0x1_0000_0000_0000_0000,
            0 <= dy <= 0x1_0000_0000,
    ;
    if 2 * count * (dy as u128) > 3 * sum {
        return true;
    }
    if crate::units::distance(prev.font_size, cur.font_size) > 1000 {
        return true;
    }
    crate::units::distance(prev.x, cur.x) > 20000
}

/// The values of a sequence of groups of lines.
pub open spec fn line_group_views(g: Seq<Vec<TextLine>>) -> Seq<Seq<LineView>> {
    g.map_values(|v: Vec<TextLine>| line_views(v@))
}

fn split_into_blocks(lines: &Vec<TextLine>, sum: u128, count: u128) -> (r: Vec<Vec<TextLine>>)
    requires
        sum <= 0x1_0000_0000_0000_0000_0000_0000,
        count <= 0x1_0000_0000_0000_0000,
    ensures
        line_group_views(r@) == block_groups(
            line_views(lines@),
            Spacing { sum: sum as int, count: count as int },
        ),
{
    let ghost views = line_views(lines@);
    let ghost mean = Spacing { sum: sum as int, count: count as int };
    let n = lines.len();
    let mut groups: Vec<Vec<TextLine>> = Vec::new();
    if n == 0 {
        assert(line_group_views(groups@) =~= block_groups(views, mean));
        return groups;
    }
    let mut current: Vec<TextLine> = Vec::new();
    current.push(lines[0].duplicate());
    let mut i: usize = 1;
    proof {
        assert(views.take(1).drop_last() =~= views.take(0));
        assert(block_groups(views.take(0), mean) =~= Seq::<Seq<LineView>>::empty());
        assert(line_views(current@) =~= seq![views[0]]);
        assert(line_group_views(groups@).push(line_views(current@)) =~= block_groups(
            views.take(1),
            mean,
        ));
    }
    while i < n
        invariant
            1 <= i <= n,
            n == lines.len(),
            views == line_views(lines@),
            mean == (Spacing { sum: sum as int, count: count as int }),
            sum <= 0x1_0000_0000_0000_0000_0000_0000,
            count <= 0x1_0000_0000_0000_0000,
            line_group_views(groups@).push(line_views(current@)) == block_groups(
                views.take(i as int),
                mean,
            ),
        decreases n - i,
    {
        let ghost before = block_groups(views.take(i as int), mean);
        let ghost closed = line_group_views(groups@);
        let ghost open = line_views(current@);
        assert(views.take(i + 1).drop_last() == views.take(i as int));
        assert(views.take(i + 1)[i - 1] == views[i - 1]);
        assert(views[i - 1] == lines@[i - 1]@ && views[i as int] == lines@[i as int]@);
        assert(before.last() == open);
        let line = lines[i].duplicate();
        if starts_block(&lines[i - 1], &lines[i], sum, count) {
            let mut fresh: Vec<TextLine> = Vec::new();
            fresh.push(line);
            groups.push(current);
            current = fresh;
            assert(line_group_views(groups@) =~= closed.push(open));
            assert(line_views(current@) =~= seq![line@]);
        } else {
            current.push(line);
            assert(line_views(current@) =~= open.push(line@));
            assert(closed.push(line_views(current@)) =~= before.update(
                before.len() - 1,
                before.last().push(line@),
            ));
        }
        i += 1;
    }
    assert(views.take(n as int) == views);
    let ghost closed = line_group_views(groups@);
    let ghost open = line_views(current@);
    groups.push(current);
    assert(line_group_views(groups@) =~= closed.push(open));
    groups
}

fn make_block(lines: Vec<TextLine>) -> (r: TextBlock)
    ensures
        r@ == block_of(line_views(lines@)),
{
    let ghost views = line_views(lines@);
    let mut heading = false;
    let mut level: u8 = 255;
    let mut i: usize = 0;
    while i < lines.len()
        invariant
            i <= lines.len(),
            views == line_views(lines@),
            heading == any_heading(views.take(i as int)),
            level == lowest_level(views.take(i as int)),
        decreases lines.len() - i,
    {
        assert(views.take(i + 1).drop_last() == views.take(i as int));
        assert(views[i as int] == lines@[i as int]@);
        if lines[i].is_heading {
            heading = true;
            if lines[i].heading_level < level {
                level = lines[i].heading_level;
            }
        }
        i += 1;
    }
    assert(views.take(lines.len() as int) == views);
    if heading {
        TextBlock { lines, block_type: BlockType::Heading, heading_level: level }
    } else {
        TextBlock { lines, block_type: BlockType::Paragraph, heading_level: 0 }
    }
}

/// Copies of all the lines.
pub fn duplicate_lines(lines: &Vec<TextLine>) -> (r: Vec<TextLine>)
    ensures
        line_views(r@) == line_views(lines@),
{
    let mut r: Vec<TextLine> = Vec::new();
    let mut i: usize = 0;
    while i < lines.len()
        invariant
            i <= lines.len(),
            line_views(r@) == line_views(lines@).take(i as int),
        decreases lines.len() - i,
    {
        let ghost before = line_views(r@);
        let l = lines[i].duplicate();
        r.push(l);
        assert(line_views(r@) =~= before.push(l@));
        i += 1;
    }
    assert(line_views(lines@).take(lines.len() as int) =~= line_views(lines@));
    r
}

/// Groups the lines of a page into blocks; see [`page_blocks`].
pub fn group_lines_into_blocks(lines: &Vec<TextLine>) -> (r: Vec<TextBlock>)
    ensures
        block_views(r@) == page_blocks(line_views(lines@)),
{
    let (sum, count) = measure_spacing(lines);
    assert(0x1_0000_0000 * lines.len() + 12000 <= 0x1_0000_0000_0000_0000_0000_0000)
        by (nonlinear_arith)
        requires
            lines.len() <= 0xFFFF_FFFF_FFFF_FFFF,
    ;
    let groups = split_into_blocks(lines, sum, count);
    let ghost expected = page_blocks(line_views(lines@));
    let mut blocks: Vec<TextBlock> = Vec::new();
    let mut i: usize = 0;
    while i < groups.len()
        invariant
            i <= groups.len(),
            expected == line_group_views(groups@).map_values(|g: Seq<LineView>| block_of(g)),
            block_views(blocks@) == expected.take(i as int),
        decreases groups.len() - i,
    {
        let ghost before = block_views(blocks@);
        let b = make_block(duplicate_lines(&groups[i]));
        blocks.push(b);
        assert(block_views(blocks@) =~= before.push(b@));
        assert(block_views(blocks@) =~= expected.take(i + 1));
        i += 1;
    }
    assert(expected.take(groups.len() as int) =~= expected);
    blocks
}

} // verus!
