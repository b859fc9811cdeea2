//! The cleanup pipeline that normalises rendered text.

use crate::text::{
    append_decimal, append_repeated, append_str, chars1, decimal, find_from,
    from_chars, lemma_trim_end_shape, lemma_trim_start_shape, occurs_at, repeated, replace_all,
    replace_chars, to_chars, trim, trim_chars, trim_end, trim_start,
};
use unicode_normalization::UnicodeNormalization;
use vstd::prelude::*;

verus! {

/// How thoroughly text is cleaned up.
#[derive(Debug, Clone, Copy, PartialEq, Eq, Structural)]
pub enum CleanupPreset {
    /// Unicode normalisation and trimming.
    Minimal,
    /// What suits most uses; the default.
    Standard,
    /// Everything, for training data.
    Aggressive,
}

impl Default for CleanupPreset {
    fn default() -> (r: CleanupPreset)
        ensures
            r == CleanupPreset::Standard,
    {
        CleanupPreset::Standard
    }
}

/// The stages of the cleanup, each switched on or off.
#[derive(Debug, Clone, Copy, PartialEq, Eq, Structural)]
pub struct CleanupOptions {
    /// Bring the text into Unicode Normalization Form C.
    pub normalize_unicode: bool,
    /// Replace bullet characters by `•`.
    pub standardize_bullets: bool,
    /// Remove lines that hold a page number only.
    pub remove_page_numbers: bool,
    /// Remove running headers and footers.
    pub remove_headers_footers: bool,
    /// Remove the table of contents.
    pub remove_toc: bool,
    /// Write ligatures out.
    pub fix_ligatures: bool,
    /// Join words hyphenated at a line break.
    pub fix_hyphenation: bool,
    /// Look for text in a wrong encoding.
    pub detect_mojibake: bool,
    /// Remove characters of the Private Use Areas.
    pub remove_pua: bool,
    /// Remove the replacement character U+FFFD.
    pub remove_replacement_char: bool,
    /// Turn single newlines into spaces.
    pub merge_single_newlines: bool,
    /// Bring a list marker and its item onto one line.
    pub merge_list_markers: bool,
    /// Join lines broken between characters of East Asian scripts.
    pub merge_cjk_lines: bool,
    /// Shorten runs of spaces.
    pub normalize_whitespace: bool,
    /// The most newlines in a row; 0 for no limit.
    pub max_consecutive_newlines: u8,
    /// Keep YAML frontmatter as it is.
    pub preserve_frontmatter: bool,
}

/// The options of the minimal preset.
pub open spec fn minimal_options() -> CleanupOptions {
    CleanupOptions {
        normalize_unicode: true,
        standardize_bullets: false,
        remove_page_numbers: false,
        remove_headers_footers: false,
        remove_toc: false,
        fix_ligatures: false,
        fix_hyphenation: false,
        detect_mojibake: false,
        remove_pua: false,
        remove_replacement_char: false,
        merge_single_newlines: false,
        merge_list_markers: false,
        merge_cjk_lines: false,
        normalize_whitespace: true,
        max_consecutive_newlines: 0,
        preserve_frontmatter: true,
    }
}

/// The options of the standard preset.
pub open spec fn standard_options() -> CleanupOptions {
    CleanupOptions {
        normalize_unicode: true,
        standardize_bullets: true,
        remove_page_numbers: true,
        remove_headers_footers: true,
        remove_toc: false,
        fix_ligatures: true,
        fix_hyphenation: true,
        detect_mojibake: false,
        remove_pua: false,
        remove_replacement_char: true,
        merge_single_newlines: true,
        merge_list_markers: true,
        merge_cjk_lines: true,
        normalize_whitespace: true,
        max_consecutive_newlines: 1,
        preserve_frontmatter: true,
    }
}

/// The options of the aggressive preset.
pub open spec fn aggressive_options() -> CleanupOptions {
    CleanupOptions {
        remove_toc: true,
        detect_mojibake: true,
        remove_pua: true,
        max_consecutive_newlines: 2,
        ..standard_options()
    }
}

/// The options of a preset.
pub open spec fn preset_options(preset: CleanupPreset) -> CleanupOptions {
    match preset {
        CleanupPreset::Minimal => minimal_options(),
        CleanupPreset::Standard => standard_options(),
        CleanupPreset::Aggressive => aggressive_options(),
    }
}

impl CleanupOptions {
    /// The options of a preset.
    pub fn from_preset(preset: CleanupPreset) -> (r: CleanupOptions)
        ensures
            r == preset_options(preset),
    {
        match preset {
            CleanupPreset::Minimal => CleanupOptions::minimal(),
            CleanupPreset::Standard => CleanupOptions::standard(),
            CleanupPreset::Aggressive => CleanupOptions::aggressive(),
        }
    }

    /// Unicode normalisation and the shortening of runs of spaces.
    pub fn minimal() -> (r: CleanupOptions)
        ensures
            r == minimal_options(),
    {
        CleanupOptions {
            normalize_unicode: true,
            standardize_bullets: false,
            remove_page_numbers: false,
            remove_headers_footers: false,
            remove_toc: false,
            fix_ligatures: false,
            fix_hyphenation: false,
            detect_mojibake: false,
            remove_pua: false,
            remove_replacement_char: false,
            merge_single_newlines: false,
            merge_list_markers: false,
            merge_cjk_lines: false,
            normalize_whitespace: true,
            max_consecutive_newlines: 0,
            preserve_frontmatter: true,
        }
    }

    /// All stages but the removal of the table of contents, of mojibake and
    /// of private-use characters; at most one newline in a row.
    pub fn standard() -> (r: CleanupOptions)
        ensures
            r == standard_options(),
    {
        CleanupOptions {
            normalize_unicode: true,
            standardize_bullets: true,
            remove_page_numbers: true,
            remove_headers_footers: true,
            remove_toc: false,
            fix_ligatures: true,
            fix_hyphenation: true,
            detect_mojibake: false,
            remove_pua: false,
            remove_replacement_char: true,
            merge_single_newlines: true,
            merge_list_markers: true,
            merge_cjk_lines: true,
            normalize_whitespace: true,
            max_consecutive_newlines: 1,
            preserve_frontmatter: true,
        }
    }

    /// All stages; at most two newlines in a row.
    pub fn aggressive() -> (r: CleanupOptions)
        ensures
            r == aggressive_options(),
    {
        CleanupOptions {
            normalize_unicode: true,
            standardize_bullets: true,
            remove_page_numbers: true,
            remove_headers_footers: true,
            remove_toc: true,
            fix_ligatures: true,
            fix_hyphenation: true,
            detect_mojibake: true,
            remove_pua: true,
            remove_replacement_char: true,
            merge_single_newlines: true,
            merge_list_markers: true,
            merge_cjk_lines: true,
            normalize_whitespace: true,
            max_consecutive_newlines: 2,
            preserve_frontmatter: true,
        }
    }
}

impl Default for CleanupOptions {
    fn default() -> (r: CleanupOptions)
        ensures
            r == standard_options(),
    {
        CleanupOptions::standard()
    }
}

/// What `UnicodeNormalization::nfc` makes of a text: its Unicode
/// Normalization Form C.
pub uninterp spec fn nfc_form(text: Seq<char>) -> Seq<char>;

/// `UnicodeNormalization::nfc` of unicode-normalization, collected into a
/// string. Not proved: that the result is the form that [`nfc_form`] names.
#[verifier::external_body]
fn normalize_nfc(text: &str) -> (r: String)
    ensures
        r@ == nfc_form(text@),
{
    text.nfc().collect::<String>()
}

/// What the regex crate makes of a replacement: the text with each match of
/// the pattern, taken from the left without overlap, replaced by the
/// expansion of the replacement, in which `$1` or `${1}` stands for the
/// first group of the match; nothing where the pattern does not compile.
pub uninterp spec fn regex_replaced(
    pattern: Seq<char>,
    text: Seq<char>,
    replacement: Seq<char>,
) -> Option<Seq<char>>;

/// `Regex::new` and `Regex::replace_all` of the regex crate. Not proved:
/// that the result is the text that [`regex_replaced`] names, and nothing
/// exactly where the pattern does not compile.
#[verifier::external_body]
fn regex_replace(pattern: &str, text: &str, replacement: &str) -> (r: Option<String>)
    ensures
        match r {
            Some(s) => regex_replaced(pattern@, text@, replacement@) == Some(s@),
            None => regex_replaced(pattern@, text@, replacement@) is None,
        },
{
    match regex::Regex::new(pattern) {
        Ok(re) => Some(re.replace_all(text, replacement).into_owned()),
        Err(_) => None,
    }
}

/// The text after a replacement by pattern; the text itself where the
/// pattern does not compile.
pub open spec fn substituted(pattern: Seq<char>, text: Seq<char>, replacement: Seq<char>) -> Seq<
    char,
> {
    match regex_replaced(pattern, text, replacement) {
        Some(s) => s,
        None => text,
    }
}

fn substitute(pattern: &str, text: String, replacement: &str) -> (r: String)
    ensures
        r@ == substituted(pattern@, text@, replacement@),
{
    match regex_replace(pattern, text.as_str(), replacement) {
        Some(s) => s,
        None => text,
    }
}

/// A line that holds a page number only, with dashes around it or without.
pub const PAGE_NUMBER_PATTERN: &'static str = "(?m)^[\\s]*[-–—]?\\s*\\d+\\s*[-–—]?\\s*$";

/// A word hyphenated at the end of a line.
pub const HYPHENATION_PATTERN: &'static str = "([a-zA-Z])-\\s*\\n?\\s*([a-z])";

/// A bullet mark at the end of a line.
pub const BULLET_BREAK_PATTERN: &'static str = "([•\\-■□▪▸►◆◇➤✓✗])\\s*\\n\\s*";

/// A number marker such as `1.` or `1)` at the end of a line.
pub const NUMBER_BREAK_PATTERN: &'static str = "(\\d{1,3}[.)]\\s*)\\n\\s*";

/// A number marker such as `(1)` at the end of a line.
pub const PAREN_BREAK_PATTERN: &'static str = "(\\(\\d{1,3}\\)\\s*)\\n\\s*";

/// A Korean marker such as `가.` at the end of a line.
pub const KOREAN_BREAK_PATTERN: &'static str = "([가-힣][.)]\\s*)\\n\\s*";

/// A circled number at the end of a line.
pub const CIRCLED_BREAK_PATTERN: &'static str = "([❶-❿])\\s*\\n\\s*";

/// Two newlines or more: a paragraph break.
pub const PARAGRAPH_BREAK_PATTERN: &'static str = "\\n{2,}";

/// A line break between two East Asian characters, the first of which does
/// not end a sentence.
pub const CJK_BREAK_PATTERN: &'static str =
    "([\\p{Hangul}\\p{Han}\\p{Hiragana}\\p{Katakana}])([^.。!?！？\\n]?)\\n([\\p{Hangul}\\p{Han}\\p{Hiragana}\\p{Katakana}])";

/// The start of a Markdown heading line.
pub const HEADING_LINE_PATTERN: &'static str = "(?m)^(#{1,6}\\s)";

/// The start of a Markdown list line.
pub const LIST_LINE_PATTERN: &'static str = "(?m)^([-*]\\s|[0-9]+\\.\\s)";

/// The start of a Markdown table line.
pub const TABLE_LINE_PATTERN: &'static str = "(?m)^(\\|)";

/// The end of a sentence at the end of a line.
pub const SENTENCE_END_PATTERN: &'static str = "([.。!?！？])\\s*\\n";

/// Three spaces or more.
pub const SPACE_RUN_PATTERN: &'static str = "[ ]{3,}";

/// Stands for a paragraph break while single newlines are merged.
pub const PARAGRAPH_MARK: &'static str = "\u{0}PARA\u{0}";

/// Stands for a sentence break while single newlines are merged.
pub const SENTENCE_MARK: &'static str = "\u{0}SENT\u{0}";

/// Stands for a paragraph break while East Asian lines are joined.
pub const CJK_PARAGRAPH_MARK: &'static str = "\u{0}CJKPARA\u{0}";

/// What a ligature is written out as; any other character as itself.
pub open spec fn expansion(c: char) -> Seq<char> {
    if c == '\u{FB00}' {
        seq!['f', 'f']
    } else if c == '\u{FB01}' {
        seq!['f', 'i']
    } else if c == '\u{FB02}' {
        seq!['f', 'l']
    } else if c == '\u{FB03}' {
        seq!['f', 'f', 'i']
    } else if c == '\u{FB04}' {
        seq!['f', 'f', 'l']
    } else if c == '\u{FB05}' || c == '\u{FB06}' {
        seq!['s', 't']
    } else {
        seq![c]
    }
}

/// The text with its ligatures written out.
pub open spec fn without_ligatures(text: Seq<char>) -> Seq<char>
    decreases text.len(),
{
    if text.len() == 0 {
        Seq::empty()
    } else {
        without_ligatures(text.drop_last()) + expansion(text.last())
    }
}

/// The bullet characters that are replaced by `•`.
pub open spec fn is_fancy_bullet(c: char) -> bool {
    c == '\u{25CF}' || c == '\u{25CB}' || c == '\u{25A0}' || c == '\u{25A1}' || c == '\u{25C6}'
        || c == '\u{25C7}' || c == '\u{25AA}' || c == '\u{25AB}' || c == '\u{25BA}' || c
        == '\u{25BB}'
}

/// The text with its bullet characters replaced by `•`.
pub open spec fn with_plain_bullets(text: Seq<char>) -> Seq<char> {
    text.map_values(
        |c: char|
            if is_fancy_bullet(c) {
                '\u{2022}'
            } else {
                c
            },
    )
}

/// A character of a Private Use Area.
pub open spec fn is_private_use(c: char) -> bool {
    let u = c as u32;
    (0xE000 <= u <= 0xF8FF) || (0xF0000 <= u <= 0xFFFFD) || (0x100000 <= u <= 0x10FFFD)
}

/// The text without the characters that `drop` names.
pub open spec fn without(text: Seq<char>, drop: spec_fn(char) -> bool) -> Seq<char>
    decreases text.len(),
{
    if text.len() == 0 {
        Seq::empty()
    } else if drop(text.last()) {
        without(text.drop_last(), drop)
    } else {
        without(text.drop_last(), drop).push(text.last())
    }
}

/// The text after the list markers are brought together with their items.
pub open spec fn with_merged_markers(text: Seq<char>) -> Seq<char> {
    let a = substituted(BULLET_BREAK_PATTERN@, text, "$1 "@);
    let b = substituted(NUMBER_BREAK_PATTERN@, a, "$1"@);
    let c = substituted(PAREN_BREAK_PATTERN@, b, "$1"@);
    let d = substituted(KOREAN_BREAK_PATTERN@, c, "$1"@);
    substituted(CIRCLED_BREAK_PATTERN@, d, "$1 "@)
}

/// The text after lines broken between East Asian characters are joined;
/// paragraph breaks stay.
pub open spec fn with_joined_cjk(text: Seq<char>) -> Seq<char> {
    let protected = substituted(PARAGRAPH_BREAK_PATTERN@, text, CJK_PARAGRAPH_MARK@);
    let merged = substituted(CJK_BREAK_PATTERN@, protected, "$1$2$3"@);
    replace_all(merged, CJK_PARAGRAPH_MARK@, seq!['\n', '\n'])
}

/// The text after single newlines are turned into spaces. Paragraph breaks,
/// the ends of sentences, and the starts of heading lines, list lines and
/// table lines keep their line break.
pub open spec fn with_merged_newlines(text: Seq<char>) -> Seq<char> {
    let a = substituted(HEADING_LINE_PATTERN@, text, "\u{0}H${1}"@);
    let b = substituted(LIST_LINE_PATTERN@, a, "\u{0}L${1}"@);
    let c = substituted(TABLE_LINE_PATTERN@, b, "\u{0}T${1}"@);
    let d = substituted(PARAGRAPH_BREAK_PATTERN@, c, PARAGRAPH_MARK@);
    let e = substituted(SENTENCE_END_PATTERN@, d, "${1}\u{0}SENT\u{0}"@);
    let f = replace_all(e, seq!['\n'], seq![' ']);
    let g = replace_all(f, SENTENCE_MARK@, seq!['\n']);
    let h = replace_all(g, PARAGRAPH_MARK@, seq!['\n', '\n']);
    let i = replace_all(h, seq!['\u{0}', 'H'], seq!['\n']);
    let j = replace_all(i, seq!['\u{0}', 'L'], seq!['\n']);
    replace_all(j, seq!['\u{0}', 'T'], seq!['\n'])
}

/// The pattern for more than `max` newlines in a row.
pub open spec fn newline_run_pattern(max: u8) -> Seq<char> {
    "\\n{"@ + decimal((max + 1) as nat) + ",}"@
}

/// The text with at most `max` newlines in a row.
pub open spec fn with_limited_newlines(text: Seq<char>, max: u8) -> Seq<char> {
    substituted(newline_run_pattern(max), text, repeated(seq!['\n'], max as nat))
}

/// The text after one stage, where the stage is switched on.
pub open spec fn staged(on: bool, before: Seq<char>, after: Seq<char>) -> Seq<char> {
    if on {
        after
    } else {
        before
    }
}

/// The text after the stages that the options switch on, in their fixed
/// order: normalisation, ligatures, bullets, private-use characters, the
/// replacement character, page-number lines, hyphenation, list markers,
/// East Asian line breaks, single newlines, runs of spaces, runs of
/// newlines; trimmed at last.
pub open spec fn cleaned_content(o: CleanupOptions, text: Seq<char>) -> Seq<char> {
    let a = staged(o.normalize_unicode, text, nfc_form(text));
    let b = staged(o.fix_ligatures, a, without_ligatures(a));
    let c = staged(o.standardize_bullets, b, with_plain_bullets(b));
    let d = staged(o.remove_pua, c, without(c, |ch: char| is_private_use(ch)));
    let e = staged(o.remove_replacement_char, d, without(d, |ch: char| ch == '\u{FFFD}'));
    let f = staged(o.remove_page_numbers, e, substituted(PAGE_NUMBER_PATTERN@, e, ""@));
    let g = staged(o.fix_hyphenation, f, substituted(HYPHENATION_PATTERN@, f, "$1$2"@));
    let h = staged(o.merge_list_markers, g, with_merged_markers(g));
    let i = staged(o.merge_cjk_lines, h, with_joined_cjk(h));
    let j = staged(o.merge_single_newlines, i, with_merged_newlines(i));
    let k = staged(o.normalize_whitespace, j, substituted(SPACE_RUN_PATTERN@, j, "  "@));
    let l = staged(
        o.max_consecutive_newlines > 0,
        k,
        with_limited_newlines(k, o.max_consecutive_newlines),
    );
    trim(l)
}

/// The line that opens frontmatter.
pub open spec fn opening() -> Seq<char> {
    seq!['-', '-', '-', '\n']
}

/// The line that closes frontmatter, with the newline before it.
pub open spec fn closing() -> Seq<char> {
    seq!['\n', '-', '-', '-', '\n']
}

/// The text starts with frontmatter that ends before index `end`: it starts
/// with the opening line, and the first closing line after that ends at
/// `end`.
pub open spec fn frontmatter_ends(text: Seq<char>, end: int) -> bool {
    &&& occurs_at(text, opening(), 0)
    &&& 9 <= end
    &&& occurs_at(text, closing(), end - 5)
    &&& forall|j: int| 4 <= j < end - 5 ==> !occurs_at(text, closing(), j)
}

/// The text starts with frontmatter.
pub open spec fn has_frontmatter(text: Seq<char>) -> bool {
    exists|end: int| frontmatter_ends(text, end)
}

/// The length of the frontmatter that the text starts with.
pub open spec fn frontmatter_len(text: Seq<char>) -> int {
    choose|end: int| frontmatter_ends(text, end)
}

/// Frontmatter ends in one place only.
pub proof fn lemma_frontmatter_end_unique(text: Seq<char>, a: int, b: int)
    requires
        frontmatter_ends(text, a),
        frontmatter_ends(text, b),
    ensures
        a == b,
{
}

/// The cleaned text: where the options keep frontmatter and the text starts
/// with it, the frontmatter as it is, a newline, and the cleaned rest;
/// otherwise the cleaned text as a whole.
pub open spec fn cleaned(o: CleanupOptions, text: Seq<char>) -> Seq<char> {
    if o.preserve_frontmatter && has_frontmatter(text) {
        let end = frontmatter_len(text);
        text.subrange(0, end) + seq!['\n'] + cleaned_content(o, text.subrange(end, text.len() as int))
    } else {
        cleaned_content(o, text)
    }
}

/// A text is frontmatter: it starts with the opening line and ends with the
/// first closing line after that.
pub open spec fn is_frontmatter(f: Seq<char>) -> bool {
    frontmatter_ends(f, f.len() as int)
}

/// Frontmatter survives the cleanup: where the options keep frontmatter,
/// the cleaned form of frontmatter followed by any text starts with that
/// frontmatter, character by character.
pub proof fn lemma_frontmatter_preserved(o: CleanupOptions, f: Seq<char>, body: Seq<char>)
    requires
        o.preserve_frontmatter,
        is_frontmatter(f),
    ensures
        cleaned(o, f + body).len() >= f.len(),
        cleaned(o, f + body).subrange(0, f.len() as int) == f,
{
    let text = f + body;
    let end = f.len() as int;
    assert(text.subrange(0, 4) =~= f.subrange(0, 4));
    assert(text.subrange(end - 5, end) =~= f.subrange(end - 5, end));
    assert forall|j: int| 4 <= j < end - 5 implies !occurs_at(text, closing(), j) by {
        assert(!occurs_at(f, closing(), j));
        assert(text.subrange(j, j + 5) =~= f.subrange(j, j + 5));
    }
    assert(frontmatter_ends(text, end));
    lemma_frontmatter_end_unique(text, end, frontmatter_len(text));
    assert(text.subrange(0, end) =~= f);
}

/// Every preset keeps frontmatter.
pub proof fn lemma_presets_keep_frontmatter(preset: CleanupPreset)
    ensures
        preset_options(preset).preserve_frontmatter,
{
}

proof fn lemma_ligatures_of_parts(a: Seq<char>, b: Seq<char>)
    ensures
        without_ligatures(a + b) == without_ligatures(a) + without_ligatures(b),
    decreases b.len(),
{
    if b.len() == 0 {
        assert(a + b =~= a);
        assert(without_ligatures(a) + without_ligatures(b) =~= without_ligatures(a));
    } else {
        lemma_ligatures_of_parts(a, b.drop_last());
        assert((a + b).drop_last() =~= a + b.drop_last());
        assert(without_ligatures(a + b) =~= without_ligatures(a) + without_ligatures(b));
    }
}

proof fn lemma_expansion_settles(c: char)
    ensures
        without_ligatures(expansion(c)) == expansion(c),
{
    let e = expansion(c);
    assert(without_ligatures(e.take(0)) =~= e.take(0));
    assert(e.take(1).drop_last() =~= e.take(0));
    assert(without_ligatures(e.take(1)) =~= e.take(1));
    if e.len() >= 2 {
        assert(e.take(2).drop_last() =~= e.take(1));
        assert(without_ligatures(e.take(2)) =~= e.take(2));
    }
    if e.len() >= 3 {
        assert(e.take(3).drop_last() =~= e.take(2));
        assert(without_ligatures(e.take(3)) =~= e.take(3));
    }
    assert(e.take(e.len() as int) =~= e);
}

proof fn lemma_ligatures_settle(text: Seq<char>)
    ensures
        without_ligatures(without_ligatures(text)) == without_ligatures(text),
    decreases text.len(),
{
    if text.len() > 0 {
        lemma_ligatures_settle(text.drop_last());
        lemma_ligatures_of_parts(without_ligatures(text.drop_last()), expansion(text.last()));
        lemma_expansion_settles(text.last());
    }
}

proof fn lemma_dropping_settles(text: Seq<char>, drop: spec_fn(char) -> bool)
    ensures
        without(without(text, drop), drop) == without(text, drop),
    decreases text.len(),
{
    if text.len() > 0 {
        lemma_dropping_settles(text.drop_last(), drop);
        if !drop(text.last()) {
            let kept = without(text.drop_last(), drop);
            assert(kept.push(text.last()).drop_last() =~= kept);
        }
    }
}

/// The stages that work character by character change nothing when they
/// are applied a second time: writing out ligatures, replacing bullet
/// characters, dropping characters, and trimming.
pub proof fn lemma_character_stages_settle(text: Seq<char>, drop: spec_fn(char) -> bool)
    ensures
        without_ligatures(without_ligatures(text)) == without_ligatures(text),
        with_plain_bullets(with_plain_bullets(text)) == with_plain_bullets(text),
        without(without(text, drop), drop) == without(text, drop),
        trim(trim(text)) == trim(text),
{
    lemma_ligatures_settle(text);
    assert(with_plain_bullets(with_plain_bullets(text)) =~= with_plain_bullets(text));
    lemma_dropping_settles(text, drop);
    let a = trim_start(text);
    let t = trim(text);
    lemma_trim_start_shape(text);
    lemma_trim_end_shape(a);
    if t.len() > 0 {
        assert(t[0] == a[0]);
    }
    assert(trim_start(t) == t);
    assert(trim_end(t) == t);
}

fn expand_ligatures(text: &Vec<char>) -> (r: Vec<char>)
    ensures
        r@ == without_ligatures(text@),
{
    let mut r: Vec<char> = Vec::new();
    let mut i: usize = 0;
    while i < text.len()
        invariant
            i <= text.len(),
            r@ == without_ligatures(text@.take(i as int)),
        decreases text.len() - i,
    {
        assert(text@.take(i + 1).drop_last() == text@.take(i as int));
        let ghost before = r@;
        let c = text[i];
        if c == '\u{FB00}' {
            r.push('f');
            r.push('f');
            assert(r@ =~= before + seq!['f', 'f']);
        } else if c == '\u{FB01}' {
            r.push('f');
            r.push('i');
            assert(r@ =~= before + seq!['f', 'i']);
        } else if c == '\u{FB02}' {
            r.push('f');
            r.push('l');
            assert(r@ =~= before + seq!['f', 'l']);
        } else if c == '\u{FB03}' {
            r.push('f');
            r.push('f');
            r.push('i');
            assert(r@ =~= before + seq!['f', 'f', 'i']);
        } else if c == '\u{FB04}' {
            r.push('f');
            r.push('f');
            r.push('l');
            assert(r@ =~= before + seq!['f', 'f', 'l']);
        } else if c == '\u{FB05}' || c == '\u{FB06}' {
            r.push('s');
            r.push('t');
            assert(r@ =~= before + seq!['s', 't']);
        } else {
            r.push(c);
            assert(r@ =~= before + seq![c]);
        }
        i += 1;
    }
    assert(text@.take(text.len() as int) == text@);
    r
}

fn plain_bullets(text: &Vec<char>) -> (r: Vec<char>)
    ensures
        r@ == with_plain_bullets(text@),
{
    let mut r: Vec<char> = Vec::new();
    let mut i: usize = 0;
    while i < text.len()
        invariant
            i <= text.len(),
            r@ == with_plain_bullets(text@).take(i as int),
        decreases text.len() - i,
    {
        let c = text[i];
        let fancy = c == '\u{25CF}' || c == '\u{25CB}' || c == '\u{25A0}' || c == '\u{25A1}' || c
            == '\u{25C6}' || c == '\u{25C7}' || c == '\u{25AA}' || c == '\u{25AB}' || c
            == '\u{25BA}' || c == '\u{25BB}';
        r.push(
            if fancy {
                '\u{2022}'
            } else {
                c
            },
        );
        assert(r@ =~= with_plain_bullets(text@).take(i + 1));
        i += 1;
    }
    assert(with_plain_bullets(text@).take(text.len() as int) =~= with_plain_bullets(text@));
    r
}

fn drop_private_use(text: &Vec<char>) -> (r: Vec<char>)
    ensures
        r@ == without(text@, |ch: char| is_private_use(ch)),
{
    let mut r: Vec<char> = Vec::new();
    let mut i: usize = 0;
    while i < text.len()
        invariant
            i <= text.len(),
            r@ == without(text@.take(i as int), |ch: char| is_private_use(ch)),
        decreases text.len() - i,
    {
        assert(text@.take(i + 1).drop_last() == text@.take(i as int));
        let u: u32 = text[i] as u32;
        if !((0xE000 <= u && u <= 0xF8FF) || (0xF0000 <= u && u <= 0xFFFFD) || (0x100000 <= u
            && u <= 0x10FFFD)) {
            r.push(text[i]);
        }
        i += 1;
    }
    assert(text@.take(text.len() as int) == text@);
    r
}

fn drop_replacement_char(text: &Vec<char>) -> (r: Vec<char>)
    ensures
        r@ == without(text@, |ch: char| ch == '\u{FFFD}'),
{
    let mut r: Vec<char> = Vec::new();
    let mut i: usize = 0;
    while i < text.len()
        invariant
            i <= text.len(),
            r@ == without(text@.take(i as int), |ch: char| ch == '\u{FFFD}'),
        decreases text.len() - i,
    {
        assert(text@.take(i + 1).drop_last() == text@.take(i as int));
        if text[i] != '\u{FFFD}' {
            r.push(text[i]);
        }
        i += 1;
    }
    assert(text@.take(text.len() as int) == text@);
    r
}

fn replace_text(text: String, pat: &Vec<char>, rep: &Vec<char>) -> (r: String)
    ensures
        r@ == replace_all(text@, pat@, rep@),
{
    let v = to_chars(text.as_str());
    from_chars(&replace_chars(&v, pat, rep))
}

/// The cleanup pipeline.
#[derive(Debug, Clone, Copy)]
pub struct CleanupPipeline {
    options: CleanupOptions,
}

impl CleanupPipeline {
    /// A pipeline with the given options.
    pub fn new(options: CleanupOptions) -> (r: CleanupPipeline)
        ensures
            r.options() == options,
    {
        CleanupPipeline { options }
    }

    /// A pipeline with the options of a preset.
    pub fn from_preset(preset: CleanupPreset) -> (r: CleanupPipeline)
        ensures
            r.options() == preset_options(preset),
    {
        CleanupPipeline { options: CleanupOptions::from_preset(preset) }
    }

    /// The options of the pipeline.
    pub closed spec fn options(&self) -> CleanupOptions {
        self.options
    }

    /// Cleans a text up; frontmatter at its start is kept as it is where the
    /// options say so. See [`cleaned`].
    pub fn process(&self, text: &str) -> (r: String)
        ensures
            r@ == cleaned(self.options(), text@),
    {
        if self.options.preserve_frontmatter {
            match self.extract_frontmatter(text) {
                Some((fm, content)) => {
                    let body = self.process_content(content.as_str());
                    let mut out = fm;
                    crate::text::push_char(&mut out, '\n');
                    append_str(&mut out, body.as_str());
                    proof {
                        let end = fm@.len() as int;
                        assert(frontmatter_ends(text@, end));
                        assert(has_frontmatter(text@));
                        lemma_frontmatter_end_unique(text@, end, frontmatter_len(text@));
                        assert(text@.subrange(0, end) =~= fm@);
                        assert(text@.subrange(end, text@.len() as int) =~= content@);
                        assert(out@ =~= fm@ + seq!['\n'] + body@);
                    }
                    return out;
                },
                None => {},
            }
        }
        self.process_content(text)
    }

    /// Splits frontmatter off the start of a text: the frontmatter with its
    /// closing line, and what follows it.
    pub fn extract_frontmatter(&self, text: &str) -> (r: Option<(String, String)>)
        ensures
            match r {
                Some((fm, rest)) => frontmatter_ends(text@, fm@.len() as int) && fm@ + rest@
                    == text@,
                None => !has_frontmatter(text@),
            },
    {
        let t = to_chars(text);
        let open = to_chars("---\n");
        let close = to_chars("\n---\n");
        proof {
            reveal_strlit("---\n");
            reveal_strlit("\n---\n");
            assert(open@ =~= opening());
            assert(close@ =~= closing());
        }
        if !crate::text::matches_at(&t, &open, 0) {
            return None;
        }
        match find_from(&t, &close, 4) {
            Some(at) => {
                assert(close@.len() == 5);
                assert(occurs_at(t@, close@, at as int));
                assert(at + 5 <= t.len());
                let end = at + 5;
                let fm = crate::text::slice_chars(&t, 0, end);
                let rest = crate::text::slice_chars(&t, end, t.len());
                assert(fm@ + rest@ =~= t@);
                Some((from_chars(&fm), from_chars(&rest)))
            },
            None => None,
        }
    }

    fn merge_list_markers(&self, text: String) -> (r: String)
        ensures
            r@ == with_merged_markers(text@),
    {
        let a = substitute(BULLET_BREAK_PATTERN, text, "$1 ");
        let b = substitute(NUMBER_BREAK_PATTERN, a, "$1");
        let c = substitute(PAREN_BREAK_PATTERN, b, "$1");
        let d = substitute(KOREAN_BREAK_PATTERN, c, "$1");
        substitute(CIRCLED_BREAK_PATTERN, d, "$1 ")
    }

    fn merge_cjk_lines(&self, text: String) -> (r: String)
        ensures
            r@ == with_joined_cjk(text@),
    {
        let protected = substitute(PARAGRAPH_BREAK_PATTERN, text, CJK_PARAGRAPH_MARK);
        let merged = substitute(CJK_BREAK_PATTERN, protected, "$1$2$3");
        replace_text(merged, &to_chars(CJK_PARAGRAPH_MARK), &crate::text::chars2('\n', '\n'))
    }

    fn merge_single_newlines(&self, text: String) -> (r: String)
        ensures
            r@ == with_merged_newlines(text@),
    {
        let a = substitute(HEADING_LINE_PATTERN, text, "\u{0}H${1}");
        let b = substitute(LIST_LINE_PATTERN, a, "\u{0}L${1}");
        let c = substitute(TABLE_LINE_PATTERN, b, "\u{0}T${1}");
        let d = substitute(PARAGRAPH_BREAK_PATTERN, c, PARAGRAPH_MARK);
        let e = substitute(SENTENCE_END_PATTERN, d, "${1}\u{0}SENT\u{0}");
        let newline = chars1('\n');
        let f = replace_text(e, &newline, &chars1(' '));
        let g = replace_text(f, &to_chars(SENTENCE_MARK), &newline);
        let h = replace_text(g, &to_chars(PARAGRAPH_MARK), &crate::text::chars2('\n', '\n'));
        let i = replace_text(h, &crate::text::chars2('\u{0}', 'H'), &newline);
        let j = replace_text(i, &crate::text::chars2('\u{0}', 'L'), &newline);
        replace_text(j, &crate::text::chars2('\u{0}', 'T'), &newline)
    }

    fn limit_newlines(&self, text: String, max: u8) -> (r: String)
        ensures
            r@ == with_limited_newlines(text@, max),
    {
        let mut pattern = String::new();
        append_str(&mut pattern, "\\n{");
        append_decimal(&mut pattern, max as u64 + 1);
        append_str(&mut pattern, ",}");
        let mut replacement = String::new();
        append_repeated(&mut replacement, "\n", max as usize);
        proof {
            reveal_strlit("\n");
            assert("\n"@ =~= seq!['\n']);
            assert(replacement@ =~= repeated(seq!['\n'], max as nat));
        }
        substitute(pattern.as_str(), text, replacement.as_str())
    }

    /// Cleans a text up that has no frontmatter; see [`cleaned_content`].
    pub fn process_content(&self, text: &str) -> (r: String)
        ensures
            r@ == cleaned_content(self.options(), text@),
    {
        let o = self.options;
        let mut result: String = text.to_owned();
        if o.normalize_unicode {
            result = normalize_nfc(result.as_str());
        }
        if o.fix_ligatures {
            result = from_chars(&expand_ligatures(&to_chars(result.as_str())));
        }
        if o.standardize_bullets {
            result = from_chars(&plain_bullets(&to_chars(result.as_str())));
        }
        if o.remove_pua {
            result = from_chars(&drop_private_use(&to_chars(result.as_str())));
        }
        if o.remove_replacement_char {
            result = from_chars(&drop_replacement_char(&to_chars(result.as_str())));
        }
        if o.remove_page_numbers {
            result = substitute(PAGE_NUMBER_PATTERN, result, "");
        }
        if o.fix_hyphenation {
            result = substitute(HYPHENATION_PATTERN, result, "$1$2");
        }
        if o.merge_list_markers {
            result = self.merge_list_markers(result);
        }
        if o.merge_cjk_lines {
            result = self.merge_cjk_lines(result);
        }
        if o.merge_single_newlines {
            result = self.merge_single_newlines(result);
        }
        if o.normalize_whitespace {
            result = substitute(SPACE_RUN_PATTERN, result, "  ");
        }
        if o.max_consecutive_newlines > 0 {
            result = self.limit_newlines(result, o.max_consecutive_newlines);
        }
        from_chars(&trim_chars(&to_chars(result.as_str())))
    }
}

impl Default for CleanupPipeline {
    fn default() -> (r: CleanupPipeline)
        ensures
            r.options() == standard_options(),
    {
        CleanupPipeline::new(CleanupOptions::default())
    }
}

} // verus!
