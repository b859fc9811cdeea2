//! The content stream interpreter: a text state machine over the operators
//! that position and show text. Every other operator passes without effect.

use crate::detect::{lossy_text, utf8_lossy};
use crate::parser::backend::{
    get_number_from_value, number_of, BackendFontInfo, ContentOp, PageId, PdfBackend, PdfValue,
};
use crate::parser::layout::{
    is_spaceless_script, is_spaceless_script_char, new_span, span_views, SpanView, TextSpan,
};
use crate::text::{extend_chars, from_chars, is_blank, is_blank_chars, to_chars};
use crate::units::{clamp32, clamp64, clamp_to_i32, div_toward_zero, div_trunc, is_floor_sqrt, isqrt};
use vstd::prelude::*;

verus! {

/// The font size in force before any `Tf`: 12 points.
pub const DEFAULT_FONT_SIZE: i32 = 12000;

/// The leading applied by `T*`, `'` and `"`, in text space units.
pub const DEFAULT_LEADING: i64 = 12;

/// A TJ adjustment beyond this many thousandths of an em separates words.
pub const SPACE_THRESHOLD: i64 = 200;

/// The text matrix `[a b c d e f]`: `a` to `d` in thousandths, `e` and `f`
/// in thousandths of a point.
#[derive(Debug, Clone, Copy, PartialEq, Eq, Structural)]
pub struct TextMatrix {
    pub a: i32,
    pub b: i32,
    pub c: i32,
    pub d: i32,
    pub e: i32,
    pub f: i32,
    /// The baseline of the current line.
    pub line_y: i32,
}

/// The identity matrix at the origin.
pub open spec fn identity_matrix() -> TextMatrix {
    TextMatrix { a: 1000, b: 0, c: 0, d: 1000, e: 0, f: 0, line_y: 0 }
}

/// The product of a length and a factor in thousandths, rounded toward zero.
pub open spec fn scaled(length: int, factor: int) -> int {
    div_toward_zero(length * factor, 1000)
}

/// The matrix after `Td tx ty`.
pub open spec fn translated(m: TextMatrix, tx: int, ty: int) -> TextMatrix {
    let e = clamp32(m.e + scaled(tx, m.a as int) + scaled(ty, m.c as int));
    let f = clamp32(m.f + scaled(tx, m.b as int) + scaled(ty, m.d as int));
    TextMatrix {
        e: e as i32,
        f: f as i32,
        line_y: if ty != 0 {
            f as i32
        } else {
            m.line_y
        },
        ..m
    }
}

/// The matrix after a move to the next line: down by the default leading.
pub open spec fn advanced(m: TextMatrix) -> TextMatrix {
    let f = clamp32(m.f - 12 * m.d);
    TextMatrix { f: f as i32, line_y: f as i32, ..m }
}

/// The integer part of the square root of `n`.
pub open spec fn floor_sqrt(n: int) -> int {
    choose|r: int| is_floor_sqrt(n, r)
}

/// The scale of the matrix, in thousandths: the square root of `a² + c²`,
/// rounded down.
pub open spec fn matrix_scale(m: TextMatrix) -> int {
    floor_sqrt(m.a * m.a + m.c * m.c)
}

fn scale_product(length: i32, factor: i32) -> (r: i64)
    ensures
        r == scaled(length as int, factor as int),
        -0x4000_0000_0000_0000 <= r <= 0x4000_0000_0000_0000,
{
    assert(-0x4000_0000_0000_0000 < length * factor <= 0x4000_0000_0000_0000) by (nonlinear_arith)
        requires
            -0x8000_0000 <= length <= 0x7FFF_FFFF,
            -0x8000_0000 <= factor <= 0x7FFF_FFFF,
    ;
    let p: i64 = (length as i64) * (factor as i64);
    div_trunc(p, 1000)
}

fn saturating_sum3(a: i64, b: i64, c: i64) -> (r: i32)
    requires
        -0x8000_0000 <= a <= 0x7FFF_FFFF,
        -0x4000_0000_0000_0000 <= b <= 0x4000_0000_0000_0000,
        -0x4000_0000_0000_0000 <= c <= 0x4000_0000_0000_0000,
    ensures
        r == clamp32(a + b + c),
{
    let s: i128 = a as i128 + b as i128 + c as i128;
    if s < i32::MIN as i128 {
        i32::MIN
    } else if s > i32::MAX as i128 {
        i32::MAX
    } else {
        s as i32
    }
}

impl Default for TextMatrix {
    fn default() -> (m: TextMatrix)
        ensures
            m == identity_matrix(),
    {
        TextMatrix { a: 1000, b: 0, c: 0, d: 1000, e: 0, f: 0, line_y: 0 }
    }
}

impl TextMatrix {
    /// The identity matrix at the origin.
    pub fn identity() -> (m: TextMatrix)
        ensures
            m == identity_matrix(),
    {
        TextMatrix { a: 1000, b: 0, c: 0, d: 1000, e: 0, f: 0, line_y: 0 }
    }

    /// Sets the matrix; the current line is then at `f`.
    pub fn set(&mut self, a: i32, b: i32, c: i32, d: i32, e: i32, f: i32)
        ensures
            *final(self) == (TextMatrix { a, b, c, d, e, f, line_y: f }),
    {
        self.a = a;
        self.b = b;
        self.c = c;
        self.d = d;
        self.e = e;
        self.f = f;
        self.line_y = f;
    }

    /// Moves the origin by `(tx, ty)` in text space.
    pub fn translate(&mut self, tx: i32, ty: i32)
        ensures
            *final(self) == translated(*old(self), tx as int, ty as int),
    {
        let e = saturating_sum3(
            self.e as i64,
            scale_product(tx, self.a),
            scale_product(ty, self.c),
        );
        let f = saturating_sum3(
            self.f as i64,
            scale_product(tx, self.b),
            scale_product(ty, self.d),
        );
        self.e = e;
        self.f = f;
        if ty != 0 {
            self.line_y = f;
        }
    }

    /// Moves to the start of the next line.
    pub fn next_line(&mut self)
        ensures
            *final(self) == advanced(*old(self)),
    {
        let f = clamp_to_i32(self.f as i64 - DEFAULT_LEADING * (self.d as i64));
        self.f = f;
        self.line_y = f;
    }

    /// The origin of the next text.
    pub fn get_position(&self) -> (p: (i32, i32))
        ensures
            p == (self.e, self.f),
    {
        (self.e, self.f)
    }

    /// The scale of the matrix, in thousandths.
    pub fn get_scale(&self) -> (s: u64)
        ensures
            s == matrix_scale(*self),
            s <= 0xFFFF_FFFF,
    {
        let a: i64 = self.a as i64;
        let c: i64 = self.c as i64;
        assert(0 <= a * a <= 0x4000_0000_0000_0000) by (nonlinear_arith)
            requires
                -0x8000_0000 <= a <= 0x7FFF_FFFF,
        ;
        assert(0 <= c * c <= 0x4000_0000_0000_0000) by (nonlinear_arith)
            requires
                -0x8000_0000 <= c <= 0x7FFF_FFFF,
        ;
        let aa: u64 = (a * a) as u64;
        let cc: u64 = (c * c) as u64;
        let s = isqrt(aa + cc);
        proof {
            let n = self.a * self.a + self.c * self.c;
            crate::units::lemma_floor_sqrt_unique(n, s as int, floor_sqrt(n));
        }
        s
    }
}

/// The base font that the page's font table gives for a resource name: that
/// of the first entry with the name.
pub open spec fn lookup_font(fonts: Seq<BackendFontInfo>, key: Seq<u8>) -> Option<Seq<char>>
    decreases fonts.len(),
{
    if fonts.len() == 0 {
        None
    } else if fonts[0].name@ == key {
        Some(fonts[0].base_font@)
    } else {
        lookup_font(fonts.drop_first(), key)
    }
}

/// The name recorded for a font: its base font where the table knows the
/// resource name, else the lossy text of the resource name itself.
pub open spec fn font_display_name(fonts: Seq<BackendFontInfo>, key: Seq<u8>) -> Seq<char> {
    match lookup_font(fonts, key) {
        Some(name) => name,
        None => utf8_lossy(key),
    }
}

fn same_bytes(a: &Vec<u8>, b: &Vec<u8>) -> (r: bool)
    ensures
        r == (a@ == b@),
{
    if a.len() != b.len() {
        return false;
    }
    let mut i: usize = 0;
    while i < a.len()
        invariant
            i <= a.len(),
            a.len() == b.len(),
            forall|j: int| 0 <= j < i ==> a@[j] == b@[j],
        decreases a.len() - i,
    {
        if a[i] != b[i] {
            return false;
        }
        i += 1;
    }
    assert(a@ =~= b@);
    true
}

fn clone_bytes(a: &Vec<u8>) -> (r: Vec<u8>)
    ensures
        r@ == a@,
{
    let mut r: Vec<u8> = Vec::new();
    let mut i: usize = 0;
    while i < a.len()
        invariant
            i <= a.len(),
            r@ == a@.take(i as int),
        decreases a.len() - i,
    {
        r.push(a[i]);
        i += 1;
    }
    r
}

/// The name to record for the font with resource name `key`.
pub fn resolve_font_name(fonts: &Vec<BackendFontInfo>, key: &Vec<u8>) -> (r: String)
    ensures
        r@ == font_display_name(fonts@, key@),
{
    let n = fonts.len();
    let mut i: usize = 0;
    assert(fonts@.subrange(0, n as int) == fonts@);
    while i < n
        invariant
            i <= n,
            n == fonts.len(),
            lookup_font(fonts@, key@) == lookup_font(fonts@.subrange(i as int, n as int), key@),
        decreases n - i,
    {
        if same_bytes(&fonts[i].name, key) {
            return fonts[i].base_font.clone();
        }
        assert(fonts@.subrange(i as int, n as int).drop_first() == fonts@.subrange(
            i + 1,
            n as int,
        ));
        i += 1;
    }
    lossy_text(key.as_slice())
}

/// The text so far, with a space appended where an adjustment separates
/// words: the text is not empty, does not end in a space or a no-break
/// space, and its last character is not of a spaceless script.
pub open spec fn with_word_gap(text: Seq<char>) -> Seq<char> {
    if text.len() > 0 && text.last() != ' ' && text.last() != '\u{00A0}' && !is_spaceless_script(
        text.last(),
    ) {
        text.push(' ')
    } else {
        text
    }
}

/// A TJ adjustment of `value` thousandths of a unit counts as a word gap when
/// its magnitude exceeds the threshold.
pub open spec fn is_word_gap(value: int) -> bool {
    value > 200 * 1000 || value < -200 * 1000
}

/// The number of strings among the items.
pub open spec fn strings_in(items: Seq<PdfValue>) -> int
    decreases items.len(),
{
    if items.len() == 0 {
        0
    } else {
        strings_in(items.drop_last()) + if items.last() is Str {
            1int
        } else {
            0int
        }
    }
}

/// The text at position `k`; nothing where there is none.
pub open spec fn text_at(texts: Seq<Seq<char>>, k: int) -> Seq<char> {
    if 0 <= k < texts.len() {
        texts[k]
    } else {
        Seq::empty()
    }
}

/// The text that a TJ array shows, given the decoded texts of its strings
/// in order: the texts one after the other, with a word gap wherever an
/// adjustment asks for one.
pub open spec fn array_text(items: Seq<PdfValue>, texts: Seq<Seq<char>>) -> Seq<char>
    decreases items.len(),
{
    if items.len() == 0 {
        Seq::empty()
    } else {
        let before = array_text(items.drop_last(), texts);
        match items.last() {
            PdfValue::Str(_) => before + text_at(texts, strings_in(items.drop_last())),
            PdfValue::Integer(_) | PdfValue::Real(_) => if is_word_gap(
                number_of(items.last()).unwrap(),
            ) {
                with_word_gap(before)
            } else {
                before
            },
            _ => before,
        }
    }
}

/// The strings among the items, in order.
pub open spec fn strings_of(items: Seq<PdfValue>) -> Seq<Seq<u8>>
    decreases items.len(),
{
    if items.len() == 0 {
        Seq::empty()
    } else {
        match items.last() {
            PdfValue::Str(bytes) => strings_of(items.drop_last()).push(bytes@),
            _ => strings_of(items.drop_last()),
        }
    }
}

/// The operand at `i`, if it is a string.
pub open spec fn string_operand(operands: Seq<PdfValue>, i: int) -> Seq<Seq<u8>> {
    if 0 <= i < operands.len() {
        match operands[i] {
            PdfValue::Str(bytes) => seq![bytes@],
            _ => Seq::empty(),
        }
    } else {
        Seq::empty()
    }
}

/// The strings that an operation shows and that are to be decoded for it:
/// the first operand of `Tj` and of `'`, the third of `"`, and the strings
/// of the array of `TJ`.
pub open spec fn requests(op: ContentOp) -> Seq<Seq<u8>> {
    let name = op.operator@;
    let args = op.operands@;
    if name == seq!['T', 'J'] {
        if args.len() > 0 {
            match args[0] {
                PdfValue::Array(items) => strings_of(items@),
                _ => Seq::empty(),
            }
        } else {
            Seq::empty()
        }
    } else if name == seq!['T', 'j'] || name == seq!['\''] {
        string_operand(args, 0)
    } else if name == seq!['"'] {
        string_operand(args, 2)
    } else {
        Seq::empty()
    }
}

/// The state of the interpreter between two operations.
pub struct InterpState {
    /// The name recorded for the current font.
    pub font: Seq<char>,
    /// The resource name of the current font.
    pub font_key: Seq<u8>,
    /// The current font size.
    pub size: int,
    /// The text matrix.
    pub matrix: TextMatrix,
    /// Whether a text object is open.
    pub in_text: bool,
    /// The spans emitted so far.
    pub spans: Seq<SpanView>,
}

/// The state before the first operation.
pub open spec fn initial_state() -> InterpState {
    InterpState {
        font: Seq::empty(),
        font_key: Seq::empty(),
        size: 12000,
        matrix: identity_matrix(),
        in_text: false,
        spans: Seq::empty(),
    }
}

/// The operand at `i` as a length in thousandths, or `default` where it is
/// missing or no number.
pub open spec fn operand_or(operands: Seq<PdfValue>, i: int, default: int) -> int {
    if 0 <= i < operands.len() {
        match number_of(operands[i]) {
            Some(n) => clamp32(n),
            None => default,
        }
    } else {
        default
    }
}

/// The font size of emitted text: the current size times the matrix scale.
pub open spec fn effective_size(size: int, scale: int) -> int {
    clamp32(div_toward_zero(size * scale, 1000))
}

/// The state after text is shown: a span at the current origin, unless the
/// text is blank.
pub open spec fn emitted(st: InterpState, text: Seq<char>) -> InterpState {
    if is_blank(text) {
        st
    } else {
        InterpState {
            spans: st.spans.push(
                new_span(
                    text,
                    st.matrix.e as int,
                    st.matrix.f as int,
                    effective_size(st.size, matrix_scale(st.matrix)),
                    st.font,
                ),
            ),
            ..st
        }
    }
}

/// The text that a `Tj` or `TJ` shows, given the decoded texts of its
/// strings.
pub open spec fn shown_text(op: ContentOp, texts: Seq<Seq<char>>) -> Seq<char> {
    if op.operands@.len() == 0 {
        Seq::empty()
    } else if op.operator@ == seq!['T', 'J'] {
        match op.operands@[0] {
            PdfValue::Array(items) => array_text(items@, texts),
            _ => Seq::empty(),
        }
    } else {
        match op.operands@[0] {
            PdfValue::Str(_) => text_at(texts, 0),
            _ => Seq::empty(),
        }
    }
}

/// The state after one operation, given the decoded texts of the strings
/// that the operation shows.
pub open spec fn step(
    fonts: Seq<BackendFontInfo>,
    st: InterpState,
    op: ContentOp,
    texts: Seq<Seq<char>>,
) -> InterpState {
    let name = op.operator@;
    let args = op.operands@;
    if name == seq!['B', 'T'] {
        InterpState { in_text: true, matrix: identity_matrix(), ..st }
    } else if name == seq!['E', 'T'] {
        InterpState { in_text: false, ..st }
    } else if name == seq!['T', 'f'] {
        if args.len() >= 2 {
            let size = operand_or(args, 1, 12000);
            match args[0] {
                PdfValue::Name(key) => InterpState {
                    font_key: key@,
                    font: font_display_name(fonts, key@),
                    size,
                    ..st
                },
                _ => InterpState { size, ..st },
            }
        } else {
            st
        }
    } else if name == seq!['T', 'd'] || name == seq!['T', 'D'] {
        if args.len() >= 2 {
            InterpState {
                matrix: translated(st.matrix, operand_or(args, 0, 0), operand_or(args, 1, 0)),
                ..st
            }
        } else {
            st
        }
    } else if name == seq!['T', 'm'] {
        if args.len() >= 6 {
            let f = operand_or(args, 5, 0) as i32;
            InterpState {
                matrix: TextMatrix {
                    a: operand_or(args, 0, 1000) as i32,
                    b: operand_or(args, 1, 0) as i32,
                    c: operand_or(args, 2, 0) as i32,
                    d: operand_or(args, 3, 1000) as i32,
                    e: operand_or(args, 4, 0) as i32,
                    f,
                    line_y: f,
                },
                ..st
            }
        } else {
            st
        }
    } else if name == seq!['T', '*'] {
        InterpState { matrix: advanced(st.matrix), ..st }
    } else if name == seq!['T', 'j'] || name == seq!['T', 'J'] {
        if st.in_text {
            emitted(st, shown_text(op, texts))
        } else {
            st
        }
    } else if name == seq!['\''] || name == seq!['"'] {
        let moved = InterpState { matrix: advanced(st.matrix), ..st };
        let at: int = if name == seq!['"'] {
            2
        } else {
            0
        };
        if st.in_text && at < args.len() {
            match args[at] {
                PdfValue::Str(_) => emitted(moved, text_at(texts, 0)),
                _ => moved,
            }
        } else {
            moved
        }
    } else {
        st
    }
}

/// Text is shown inside a text object only: outside of one no operation
/// adds a span. No operation takes a span away, and one operation adds at
/// most one. Entering and leaving a text object keep the font and its size.
pub proof fn lemma_shows_only_inside_text(
    fonts: Seq<BackendFontInfo>,
    st: InterpState,
    op: ContentOp,
    texts: Seq<Seq<char>>,
)
    ensures
        !st.in_text ==> step(fonts, st, op, texts).spans == st.spans,
        st.spans.is_prefix_of(step(fonts, st, op, texts).spans),
        step(fonts, st, op, texts).spans.len() <= st.spans.len() + 1,
        op.operator@ == seq!['B', 'T'] || op.operator@ == seq!['E', 'T'] ==> {
            let after = step(fonts, st, op, texts);
            after.font == st.font && after.font_key == st.font_key && after.size == st.size
                && after.spans == st.spans
        },
{
    let after = step(fonts, st, op, texts);
    if after.spans != st.spans {
        assert(after.spans.len() == st.spans.len() + 1);
        assert(after.spans.drop_last() =~= st.spans);
    }
}

/// The texts for operation `i`; none where the list is too short.
pub open spec fn texts_for(texts: Seq<Seq<Seq<char>>>, i: int) -> Seq<Seq<char>> {
    if 0 <= i < texts.len() {
        texts[i]
    } else {
        Seq::empty()
    }
}

/// The state after the first `n` operations, from the initial state.
pub open spec fn run(
    fonts: Seq<BackendFontInfo>,
    ops: Seq<ContentOp>,
    texts: Seq<Seq<Seq<char>>>,
    n: int,
) -> InterpState
    decreases n,
{
    if n <= 0 || n > ops.len() {
        initial_state()
    } else {
        step(fonts, run(fonts, ops, texts, n - 1), ops[n - 1], texts_for(texts, n - 1))
    }
}

/// The spans that a content stream emits; `texts` holds, for each
/// operation, the decoded texts of the strings that it shows.
pub open spec fn interpret(
    fonts: Seq<BackendFontInfo>,
    ops: Seq<ContentOp>,
    texts: Seq<Seq<Seq<char>>>,
) -> Seq<SpanView> {
    run(fonts, ops, texts, ops.len() as int).spans
}

/// The texts as sequences of characters.
pub open spec fn text_views(texts: Seq<String>) -> Seq<Seq<char>> {
    texts.map_values(|s: String| s@)
}

/// The texts of all operations as sequences of characters.
pub open spec fn all_text_views(texts: Seq<Vec<String>>) -> Seq<Seq<Seq<char>>> {
    texts.map_values(|v: Vec<String>| text_views(v@))
}

/// There is a list of texts for each operation, with a text for each
/// string that the operation shows.
pub open spec fn texts_fit(ops: Seq<ContentOp>, texts: Seq<Seq<Seq<char>>>) -> bool {
    texts.len() == ops.len() && forall|i: int|
        0 <= i < ops.len() ==> (#[trigger] texts[i]).len() == requests(ops[i]).len()
}

/// The interpreter's state in executable form.
pub struct Interpreter {
    font: String,
    font_key: Vec<u8>,
    size: i32,
    matrix: TextMatrix,
    in_text: bool,
    spans: Vec<TextSpan>,
}

impl View for Interpreter {
    type V = InterpState;

    closed spec fn view(&self) -> InterpState {
        InterpState {
            font: self.font@,
            font_key: self.font_key@,
            size: self.size as int,
            matrix: self.matrix,
            in_text: self.in_text,
            spans: span_views(self.spans@),
        }
    }
}

fn operand_number(operands: &Vec<PdfValue>, i: usize, default: i32) -> (r: i32)
    ensures
        r == operand_or(operands@, i as int, default as int),
{
    if i < operands.len() {
        match get_number_from_value(&operands[i]) {
            Some(n) => {
                assert(clamp32(clamp64(number_of(operands@[i as int]).unwrap())) == clamp32(
                    number_of(operands@[i as int]).unwrap(),
                ));
                clamp_to_i32(n)
            },
            None => default,
        }
    } else {
        default
    }
}

fn op_is2(name: &Vec<char>, a: char, b: char) -> (r: bool)
    ensures
        r == (name@ == seq![a, b]),
{
    if name.len() == 2 && name[0] == a && name[1] == b {
        assert(name@ =~= seq![a, b]);
        true
    } else {
        if name.len() == 2 {
            assert(seq![a, b][0] == a && seq![a, b][1] == b);
        } else {
            assert(seq![a, b].len() == 2);
        }
        false
    }
}

fn op_is1(name: &Vec<char>, a: char) -> (r: bool)
    ensures
        r == (name@ == seq![a]),
{
    if name.len() == 1 && name[0] == a {
        assert(name@ =~= seq![a]);
        true
    } else {
        if name.len() == 1 {
            assert(seq![a][0] == a);
        } else {
            assert(seq![a].len() == 1);
        }
        false
    }
}

fn push_word_gap(text: &mut Vec<char>)
    ensures
        final(text)@ == with_word_gap(old(text)@),
{
    let n = text.len();
    if n > 0 {
        let last = text[n - 1];
        if last != ' ' && last != '\u{00A0}' && !is_spaceless_script_char(last) {
            text.push(' ');
        }
    }
}

fn is_gap_value(item: &PdfValue) -> (r: bool)
    requires
        number_of(*item) is Some,
    ensures
        r == is_word_gap(number_of(*item).unwrap()),
{
    match item {
        PdfValue::Integer(n) => *n > SPACE_THRESHOLD || *n < -SPACE_THRESHOLD,
        PdfValue::Real(r) => *r > SPACE_THRESHOLD * 1000 || *r < -SPACE_THRESHOLD * 1000,
        _ => false,
    }
}

fn text_of(texts: &Vec<String>, k: usize) -> (r: Vec<char>)
    ensures
        r@ == text_at(text_views(texts@), k as int),
{
    if k < texts.len() {
        to_chars(texts[k].as_str())
    } else {
        Vec::new()
    }
}

fn join_array(items: &Vec<PdfValue>, texts: &Vec<String>) -> (r: Vec<char>)
    ensures
        r@ == array_text(items@, text_views(texts@)),
{
    let mut text: Vec<char> = Vec::new();
    let mut seen: usize = 0;
    let mut i: usize = 0;
    while i < items.len()
        invariant
            i <= items.len(),
            seen == strings_in(items@.take(i as int)),
            seen <= i,
            text@ == array_text(items@.take(i as int), text_views(texts@)),
        decreases items.len() - i,
    {
        assert(items@.take(i + 1).drop_last() == items@.take(i as int));
        match &items[i] {
            PdfValue::Str(_) => {
                let v = text_of(texts, seen);
                extend_chars(&mut text, &v);
                seen += 1;
            },
            PdfValue::Integer(_) => {
                if is_gap_value(&items[i]) {
                    push_word_gap(&mut text);
                }
            },
            PdfValue::Real(_) => {
                if is_gap_value(&items[i]) {
                    push_word_gap(&mut text);
                }
            },
            _ => {},
        }
        i += 1;
    }
    assert(items@.take(items.len() as int) == items@);
    text
}

impl Interpreter {
    /// The interpreter before the first operation.
    pub fn new() -> (r: Interpreter)
        ensures
            r@ == initial_state(),
    {
        let r = Interpreter {
            font: String::new(),
            font_key: Vec::new(),
            size: DEFAULT_FONT_SIZE,
            matrix: TextMatrix::identity(),
            in_text: false,
            spans: Vec::new(),
        };
        assert(span_views(r.spans@) =~= Seq::<SpanView>::empty());
        r
    }

    fn emit(&mut self, text: &Vec<char>)
        ensures
            final(self)@ == emitted(old(self)@, text@),
    {
        if !is_blank_chars(text) {
            let scale = self.matrix.get_scale();
            assert(-0x8000_0000 * 0xFFFF_FFFF <= self.size * scale <= 0x7FFF_FFFF * 0xFFFF_FFFF)
                by (nonlinear_arith)
                requires
                    -0x8000_0000 <= self.size <= 0x7FFF_FFFF,
                    0 <= scale <= 0xFFFF_FFFF,
            ;
            let product: i64 = (self.size as i64) * (scale as i64);
            let size = clamp_to_i32(div_trunc(product, 1000));
            let span = TextSpan::new(
                from_chars(text),
                self.matrix.e,
                self.matrix.f,
                size,
                self.font.clone(),
            );
            let ghost before = self.spans@;
            self.spans.push(span);
            assert(span_views(self.spans@) =~= span_views(before).push(span@));
        }
    }

    /// Applies one operation, given the decoded texts of the strings that
    /// the operation shows.
    pub fn apply(&mut self, fonts: &Vec<BackendFontInfo>, op: &ContentOp, texts: &Vec<String>)
        ensures
            final(self)@ == step(fonts@, old(self)@, *op, text_views(texts@)),
    {
        let name = to_chars(op.operator.as_str());
        let args = &op.operands;
        if op_is2(&name, 'B', 'T') {
            self.in_text = true;
            self.matrix = TextMatrix::identity();
        } else if op_is2(&name, 'E', 'T') {
            self.in_text = false;
        } else if op_is2(&name, 'T', 'f') {
            if args.len() >= 2 {
                match &args[0] {
                    PdfValue::Name(key) => {
                        self.font = resolve_font_name(fonts, key);
                        self.font_key = clone_bytes(key);
                    },
                    _ => {},
                }
                self.size = operand_number(args, 1, DEFAULT_FONT_SIZE);
            }
        } else if op_is2(&name, 'T', 'd') || op_is2(&name, 'T', 'D') {
            if args.len() >= 2 {
                let tx = operand_number(args, 0, 0);
                let ty = operand_number(args, 1, 0);
                self.matrix.translate(tx, ty);
            }
        } else if op_is2(&name, 'T', 'm') {
            if args.len() >= 6 {
                let a = operand_number(args, 0, 1000);
                let b = operand_number(args, 1, 0);
                let c = operand_number(args, 2, 0);
                let d = operand_number(args, 3, 1000);
                let e = operand_number(args, 4, 0);
                let f = operand_number(args, 5, 0);
                self.matrix.set(a, b, c, d, e, f);
            }
        } else if op_is2(&name, 'T', '*') {
            self.matrix.next_line();
        } else if op_is2(&name, 'T', 'j') || op_is2(&name, 'T', 'J') {
            if self.in_text {
                let text: Vec<char> = if args.len() == 0 {
                    Vec::new()
                } else if op_is2(&name, 'T', 'J') {
                    match &args[0] {
                        PdfValue::Array(items) => join_array(items, texts),
                        _ => Vec::new(),
                    }
                } else {
                    match &args[0] {
                        PdfValue::Str(_) => text_of(texts, 0),
                        _ => Vec::new(),
                    }
                };
                self.emit(&text);
            }
        } else if op_is1(&name, '\'') || op_is1(&name, '"') {
            self.matrix.next_line();
            let at: usize = if op_is1(&name, '"') {
                2
            } else {
                0
            };
            if self.in_text && at < args.len() {
                match &args[at] {
                    PdfValue::Str(_) => {
                        let text = text_of(texts, 0);
                        self.emit(&text);
                    },
                    _ => {},
                }
            }
        }
    }

    /// The spans emitted so far.
    pub fn into_spans(self) -> (r: Vec<TextSpan>)
        ensures
            span_views(r@) == self@.spans,
    {
        self.spans
    }
}

/// Interprets the operations of a content stream and returns the spans it
/// shows, in stream order; see [`interpret`].
///
/// `fonts` is the page's font table; `texts` holds, for each operation, the
/// decoded texts of the strings that the operation shows. An operation
/// without its list of texts, or a string without its text, shows nothing.
pub fn interpret_operations(
    fonts: &Vec<BackendFontInfo>,
    ops: &Vec<ContentOp>,
    texts: &Vec<Vec<String>>,
) -> (spans: Vec<TextSpan>)
    ensures
        span_views(spans@) == interpret(fonts@, ops@, all_text_views(texts@)),
{
    let ghost views = all_text_views(texts@);
    let none: Vec<String> = Vec::new();
    assert(text_views(none@) =~= Seq::<Seq<char>>::empty());
    let mut interp = Interpreter::new();
    let mut i: usize = 0;
    while i < ops.len()
        invariant
            i <= ops.len(),
            views == all_text_views(texts@),
            text_views(none@) == Seq::<Seq<char>>::empty(),
            interp@ == run(fonts@, ops@, views, i as int),
        decreases ops.len() - i,
    {
        if i < texts.len() {
            assert(views[i as int] == text_views(texts@[i as int]@));
            interp.apply(fonts, &ops[i], &texts[i]);
        } else {
            interp.apply(fonts, &ops[i], &none);
        }
        i += 1;
    }
    interp.into_spans()
}

fn push_string_operand(out: &mut Vec<Vec<u8>>, operands: &Vec<PdfValue>, i: usize)
    ensures
        final(out)@.map_values(|v: Vec<u8>| v@) == old(out)@.map_values(|v: Vec<u8>| v@)
            + string_operand(operands@, i as int),
{
    if i < operands.len() {
        match &operands[i] {
            PdfValue::Str(bytes) => {
                let copy = clone_bytes(bytes);
                out.push(copy);
                assert(out@.map_values(|v: Vec<u8>| v@) =~= old(out)@.map_values(|v: Vec<u8>| v@)
                    + seq![bytes@]);
                return ;
            },
            _ => {},
        }
    }
    assert(out@.map_values(|v: Vec<u8>| v@) =~= old(out)@.map_values(|v: Vec<u8>| v@)
        + Seq::<Seq<u8>>::empty());
}

/// The strings that an operation shows, to be decoded; see [`requests`].
pub fn strings_to_decode(op: &ContentOp) -> (r: Vec<Vec<u8>>)
    ensures
        r@.map_values(|v: Vec<u8>| v@) == requests(*op),
{
    let name = to_chars(op.operator.as_str());
    let args = &op.operands;
    let mut out: Vec<Vec<u8>> = Vec::new();
    assert(out@.map_values(|v: Vec<u8>| v@) =~= Seq::<Seq<u8>>::empty());
    if op_is2(&name, 'T', 'J') {
        if args.len() > 0 {
            match &args[0] {
                PdfValue::Array(items) => {
                    let mut i: usize = 0;
                    assert(out@.map_values(|v: Vec<u8>| v@) =~= strings_of(items@.take(0)));
                    while i < items.len()
                        invariant
                            i <= items.len(),
                            out@.map_values(|v: Vec<u8>| v@) == strings_of(items@.take(i as int)),
                        decreases items.len() - i,
                    {
                        assert(items@.take(i + 1).drop_last() == items@.take(i as int));
                        match &items[i] {
                            PdfValue::Str(bytes) => {
                                let ghost before = out@.map_values(|v: Vec<u8>| v@);
                                out.push(clone_bytes(bytes));
                                assert(out@.map_values(|v: Vec<u8>| v@) =~= before.push(bytes@));
                            },
                            _ => {},
                        }
                        i += 1;
                    }
                    assert(items@.take(items.len() as int) == items@);
                },
                _ => {},
            }
        }
    } else if op_is2(&name, 'T', 'j') || op_is1(&name, '\'') {
        push_string_operand(&mut out, args, 0);
    } else if op_is1(&name, '"') {
        push_string_operand(&mut out, args, 2);
    }
    out
}

/// The resource name of the font that is current after an operation.
pub open spec fn font_key_after(key: Seq<u8>, op: ContentOp) -> Seq<u8> {
    if op.operator@ == seq!['T', 'f'] && op.operands@.len() >= 2 {
        match op.operands@[0] {
            PdfValue::Name(k) => k@,
            _ => key,
        }
    } else {
        key
    }
}

fn next_font_key(key: Vec<u8>, op: &ContentOp) -> (r: Vec<u8>)
    ensures
        r@ == font_key_after(key@, *op),
{
    let name = to_chars(op.operator.as_str());
    if op_is2(&name, 'T', 'f') && op.operands.len() >= 2 {
        match &op.operands[0] {
            PdfValue::Name(k) => clone_bytes(k),
            _ => key,
        }
    } else {
        key
    }
}

/// Has the backend decode the strings that the operations show, each
/// through the font that is current where it is shown. Returns, for each
/// operation, the texts of its strings in order, whatever the backend makes
/// of them.
pub fn decode_strings<B: PdfBackend>(backend: &B, page: PageId, ops: &Vec<ContentOp>) -> (r: Vec<
    Vec<String>,
>)
    ensures
        texts_fit(ops@, all_text_views(r@)),
{
    let mut all: Vec<Vec<String>> = Vec::new();
    let mut key: Vec<u8> = Vec::new();
    let mut i: usize = 0;
    while i < ops.len()
        invariant
            i <= ops.len(),
            all.len() == i,
            forall|k: int|
                0 <= k < i ==> (#[trigger] all_text_views(all@)[k]).len() == requests(ops@[k]).len(),
        decreases ops.len() - i,
    {
        let wanted = strings_to_decode(&ops[i]);
        let mut texts: Vec<String> = Vec::new();
        let mut j: usize = 0;
        while j < wanted.len()
            invariant
                j <= wanted.len(),
                texts.len() == j,
            decreases wanted.len() - j,
        {
            texts.push(backend.decode_text(page, key.as_slice(), wanted[j].as_slice()));
            j += 1;
        }
        let ghost before = all_text_views(all@);
        let ghost own = text_views(texts@);
        assert(own.len() == requests(ops@[i as int]).len()) by {
            assert(wanted@.map_values(|v: Vec<u8>| v@).len() == wanted.len());
        }
        all.push(texts);
        assert(all_text_views(all@) =~= before.push(own));
        key = next_font_key(key, &ops[i]);
        i += 1;
    }
    all
}

/// Interprets the operations of a page's content stream, with the strings
/// decoded by the backend, and returns the spans it shows, in stream order.
/// The spans are those of [`interpret`] for the texts that the backend
/// gave, one for each string shown.
pub fn parse_content_stream<B: PdfBackend>(
    backend: &B,
    page: PageId,
    fonts: &Vec<BackendFontInfo>,
    ops: &Vec<ContentOp>,
) -> (spans: Vec<TextSpan>)
    ensures
        exists|texts: Seq<Seq<Seq<char>>>|
            texts_fit(ops@, texts) && span_views(spans@) == #[trigger] interpret(
                fonts@,
                ops@,
                texts,
            ),
{
    let texts = decode_strings(backend, page, ops);
    interpret_operations(fonts, ops, &texts)
}

} // verus!
