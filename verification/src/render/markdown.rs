//! Rendering a document as Markdown.

use crate::error::Error;
use crate::model::document::{frontmatter_text, Document};
use crate::model::page::{Block, Page};
use crate::model::paragraph::{
    content_text, Alignment, InlineContent, ListInfo, ListStyle, NumberStyle, Paragraph, TextRun,
    TextStyle,
};
use crate::model::table::{columns_in, has_merged, paragraphs_text, Table, TableCell, TableRow};
use crate::render::cleanup::{cleaned, CleanupPipeline};
use crate::render::options::{selects, RenderOptions, TableFallback};
use crate::render::result::{counted, inked_chars, no_stats, words_in, ExtractionStats, RenderResult};
use crate::text::{
    append_chars, append_decimal, append_repeated, append_str, chars1, decimal, is_blank,
    push_char, repeated, replace_all, replace_chars, to_chars, trim, trim_chars,
};
use vstd::prelude::*;

verus! {

/// The characters that Markdown reads as markup within a line.
pub open spec fn is_markup(c: char) -> bool {
    c == '\\' || c == '`' || c == '*' || c == '_' || c == '[' || c == ']' || c == '|'
}

/// The text with a backslash before each character that Markdown reads as
/// markup.
pub open spec fn escaped(text: Seq<char>) -> Seq<char>
    decreases text.len(),
{
    if text.len() == 0 {
        Seq::empty()
    } else if is_markup(text.last()) {
        escaped(text.drop_last()) + seq!['\\', text.last()]
    } else {
        escaped(text.drop_last()).push(text.last())
    }
}

/// Escapes the characters that Markdown reads as markup.
pub fn escape_markdown(text: &str) -> (r: String)
    ensures
        r@ == escaped(text@),
{
    let t = to_chars(text);
    let mut out = String::new();
    let mut i: usize = 0;
    while i < t.len()
        invariant
            i <= t.len(),
            out@ == escaped(t@.take(i as int)),
        decreases t.len() - i,
    {
        assert(t@.take(i + 1).drop_last() == t@.take(i as int));
        let ghost before = out@;
        let c = t[i];
        if c == '\\' || c == '`' || c == '*' || c == '_' || c == '[' || c == ']' || c == '|' {
            push_char(&mut out, '\\');
            push_char(&mut out, c);
            assert(out@ =~= before + seq!['\\', c]);
        } else {
            push_char(&mut out, c);
        }
        i += 1;
    }
    assert(t@.take(t.len() as int) == t@);
    out
}

/// The Roman numeral of a number, by the additive rule with the six
/// subtractive pairs; nothing for 0.
pub open spec fn roman(n: nat) -> Seq<char>
    decreases n,
{
    if n >= 1000 {
        seq!['M'] + roman((n - 1000) as nat)
    } else if n >= 900 {
        seq!['C', 'M'] + roman((n - 900) as nat)
    } else if n >= 500 {
        seq!['D'] + roman((n - 500) as nat)
    } else if n >= 400 {
        seq!['C', 'D'] + roman((n - 400) as nat)
    } else if n >= 100 {
        seq!['C'] + roman((n - 100) as nat)
    } else if n >= 90 {
        seq!['X', 'C'] + roman((n - 90) as nat)
    } else if n >= 50 {
        seq!['L'] + roman((n - 50) as nat)
    } else if n >= 40 {
        seq!['X', 'L'] + roman((n - 40) as nat)
    } else if n >= 10 {
        seq!['X'] + roman((n - 10) as nat)
    } else if n >= 9 {
        seq!['I', 'X'] + roman((n - 9) as nat)
    } else if n >= 5 {
        seq!['V'] + roman((n - 5) as nat)
    } else if n >= 4 {
        seq!['I', 'V'] + roman((n - 4) as nat)
    } else if n >= 1 {
        seq!['I'] + roman((n - 1) as nat)
    } else {
        Seq::empty()
    }
}

fn roman_chars(num: u32) -> (r: Vec<char>)
    ensures
        r@ == roman(num as nat),
{
    let mut out: Vec<char> = Vec::new();
    let mut n: u32 = num;
    while n > 0
        invariant
            out@ + roman(n as nat) == roman(num as nat),
        decreases n,
    {
        let ghost before = out@;
        let ghost rest = roman(n as nat);
        if n >= 1000 {
            out.push('M');
            n -= 1000;
            assert(before.push('M') + roman(n as nat) =~= before + (seq!['M'] + roman(n as nat)));
        } else if n >= 900 {
            out.push('C');
            out.push('M');
            n -= 900;
            assert(before.push('C').push('M') + roman(n as nat) =~= before + (seq!['C', 'M']
                + roman(n as nat)));
        } else if n >= 500 {
            out.push('D');
            n -= 500;
            assert(before.push('D') + roman(n as nat) =~= before + (seq!['D'] + roman(n as nat)));
        } else if n >= 400 {
            out.push('C');
            out.push('D');
            n -= 400;
            assert(before.push('C').push('D') + roman(n as nat) =~= before + (seq!['C', 'D']
                + roman(n as nat)));
        } else if n >= 100 {
            out.push('C');
            n -= 100;
            assert(before.push('C') + roman(n as nat) =~= before + (seq!['C'] + roman(n as nat)));
        } else if n >= 90 {
            out.push('X');
            out.push('C');
            n -= 90;
            assert(before.push('X').push('C') + roman(n as nat) =~= before + (seq!['X', 'C']
                + roman(n as nat)));
        } else if n >= 50 {
            out.push('L');
            n -= 50;
            assert(before.push('L') + roman(n as nat) =~= before + (seq!['L'] + roman(n as nat)));
        } else if n >= 40 {
            out.push('X');
            out.push('L');
            n -= 40;
            assert(before.push('X').push('L') + roman(n as nat) =~= before + (seq!['X', 'L']
                + roman(n as nat)));
        } else if n >= 10 {
            out.push('X');
            n -= 10;
            assert(before.push('X') + roman(n as nat) =~= before + (seq!['X'] + roman(n as nat)));
        } else if n >= 9 {
            out.push('I');
            out.push('X');
            n -= 9;
            assert(before.push('I').push('X') + roman(n as nat) =~= before + (seq!['I', 'X']
                + roman(n as nat)));
        } else if n >= 5 {
            out.push('V');
            n -= 5;
            assert(before.push('V') + roman(n as nat) =~= before + (seq!['V'] + roman(n as nat)));
        } else if n >= 4 {
            out.push('I');
            out.push('V');
            n -= 4;
            assert(before.push('I').push('V') + roman(n as nat) =~= before + (seq!['I', 'V']
                + roman(n as nat)));
        } else {
            out.push('I');
            n -= 1;
            assert(before.push('I') + roman(n as nat) =~= before + (seq!['I'] + roman(n as nat)));
        }
    }
    assert(out@ + Seq::<char>::empty() =~= out@);
    out
}

/// The Roman numeral of a number; see [`roman`].
pub fn to_roman(num: u32) -> (r: String)
    ensures
        r@ == roman(num as nat),
{
    crate::text::from_chars(&roman_chars(num))
}

/// An uppercase ASCII letter as lowercase; any other character as itself.
pub open spec fn lowered(c: char) -> char {
    if 'A' <= c <= 'Z' {
        ((c as u32) + 32) as char
    } else {
        c
    }
}

/// The text with its uppercase ASCII letters as lowercase.
pub open spec fn lowered_text(text: Seq<char>) -> Seq<char> {
    text.map_values(|c: char| lowered(c))
}

fn lower_letter(c: char) -> (r: char)
    ensures
        r == lowered(c),
{
    if 'A' <= c && c <= 'Z' {
        let code: u32 = c as u32 + 32;
        match char_from_code(code) {
            Some(l) => {
                proof {
                    vstd::utf8::char_u32_cast(l, code);
                }
                l
            },
            None => c,
        }
    } else {
        c
    }
}

/// A code point is a Unicode scalar value.
pub open spec fn is_scalar_value(code: u32) -> bool {
    code <= 0xD7FF || (0xE000 <= code <= 0x10FFFF)
}

/// `char::from_u32`. Not proved: that the result is the character with the
/// code point where the code point is a Unicode scalar value, and nothing
/// otherwise.
#[verifier::external_body]
fn char_from_code(code: u32) -> (r: Option<char>)
    ensures
        match r {
            Some(c) => is_scalar_value(code) && c as u32 == code,
            None => !is_scalar_value(code),
        },
{
    char::from_u32(code)
}

/// The letter for item `num` of a list in letters that start at `first`:
/// the character `num - 1` code points after `first`, or `first` where that
/// is no character.
pub open spec fn letter_for(first: char, num: u32) -> char {
    let code = first as u32 + num - 1;
    if 0 <= code <= 0xFFFF_FFFF && is_scalar_value(code as u32) {
        (code as u32) as char
    } else {
        first
    }
}

fn letter(first: char, num: u32) -> (r: char)
    ensures
        r == letter_for(first, num),
{
    let code: i64 = first as u32 as i64 + num as i64 - 1;
    if code < 0 || code > 0xFFFF_FFFF {
        return first;
    }
    let code: u32 = code as u32;
    match char_from_code(code) {
        Some(c) => {
            proof {
                vstd::utf8::char_u32_cast(c, code);
            }
            c
        },
        None => first,
    }
}

/// The marker of a list item: the configured marker for an unordered list;
/// for an ordered list the number of the item, or 1 where it has none, in
/// the list's numbering and followed by a dot.
pub open spec fn list_marker(o: RenderOptions, info: ListInfo) -> Seq<char> {
    match info.style {
        ListStyle::Unordered { .. } => seq![o.list_marker],
        ListStyle::Ordered { number_style, .. } => {
            let num = match info.item_number {
                Some(n) => n,
                None => 1u32,
            };
            (match number_style {
                NumberStyle::Decimal => decimal(num as nat),
                NumberStyle::LowerAlpha => seq![letter_for('a', num)],
                NumberStyle::UpperAlpha => seq![letter_for('A', num)],
                NumberStyle::LowerRoman => lowered_text(roman(num as nat)),
                NumberStyle::UpperRoman => roman(num as nat),
            }) + seq!['.']
        },
    }
}

/// A text between a pair of marks, where the style is on.
pub open spec fn wrapped(on: bool, open: Seq<char>, text: Seq<char>, close: Seq<char>) -> Seq<
    char,
> {
    if on {
        open + text + close
    } else {
        text
    }
}

/// A text in the marks of its style, innermost first: strikethrough,
/// italic, bold, superscript, subscript, underline.
pub open spec fn styled(text: Seq<char>, s: TextStyle) -> Seq<char> {
    let a = wrapped(s.strikethrough, "~~"@, text, "~~"@);
    let b = wrapped(s.italic, "*"@, a, "*"@);
    let c = wrapped(s.bold, "**"@, b, "**"@);
    let d = wrapped(s.superscript, "<sup>"@, c, "</sup>"@);
    let e = wrapped(s.subscript, "<sub>"@, d, "</sub>"@);
    wrapped(s.underline, "<u>"@, e, "</u>"@)
}

/// A run of text as Markdown: escaped where the options say so, and in the
/// marks of its style.
pub open spec fn run_markdown(o: RenderOptions, run: TextRun) -> Seq<char> {
    styled(
        if o.escape_special_chars {
            escaped(run.text@)
        } else {
            run.text@
        },
        run.style,
    )
}

/// The text that stands for an image: its alternative text, or nothing.
pub open spec fn alt_of(alt: Option<String>) -> Seq<char> {
    match alt {
        Some(a) => a@,
        None => Seq::empty(),
    }
}

/// An image as Markdown: `![alt](prefix + id)`.
pub open spec fn image_markdown(o: RenderOptions, id: Seq<char>, alt: Option<String>) -> Seq<char> {
    "!["@ + alt_of(alt) + "]("@ + o.image_path_prefix@ + id + ")"@
}

/// One piece of inline content as Markdown.
pub open spec fn inline_markdown(o: RenderOptions, c: InlineContent) -> Seq<char> {
    match c {
        InlineContent::Text(run) => run_markdown(o, run),
        InlineContent::LineBreak => if o.preserve_line_breaks {
            "  \n"@
        } else {
            " "@
        },
        InlineContent::Link { text, url, title } => match title {
            Some(t) => "["@ + text@ + "]("@ + url@ + " \""@ + t@ + "\")"@,
            None => "["@ + text@ + "]("@ + url@ + ")"@,
        },
        InlineContent::Image { resource_id, alt_text } => image_markdown(
            o,
            resource_id@,
            alt_text,
        ),
    }
}

/// Inline content as Markdown, piece after piece.
pub open spec fn content_markdown(o: RenderOptions, content: Seq<InlineContent>) -> Seq<char>
    decreases content.len(),
{
    if content.len() == 0 {
        Seq::empty()
    } else {
        content_markdown(o, content.drop_last()) + inline_markdown(o, content.last())
    }
}

/// The smaller of a heading level and the deepest level allowed.
pub open spec fn shown_level(level: u8, max: u8) -> nat {
    if level < max {
        level as nat
    } else {
        max as nat
    }
}

/// A paragraph as Markdown: nothing where its text is blank; a heading as
/// number signs, a space and the content; a list item as indentation, the
/// marker, a space and the content on one line; body text as the content.
/// Headings and body text are followed by a blank line.
pub open spec fn paragraph_markdown(o: RenderOptions, p: Paragraph) -> Seq<char> {
    if is_blank(content_text(p.content@)) {
        Seq::empty()
    } else {
        match p.style.heading_level {
            Some(level) => repeated("#"@, shown_level(level, o.max_heading_level)) + " "@
                + content_markdown(o, p.content@) + "\n\n"@,
            None => match p.style.list_info {
                Some(info) => repeated("  "@, info.level as nat) + list_marker(o, info) + " "@
                    + content_markdown(o, p.content@) + "\n"@,
                None => content_markdown(o, p.content@) + "\n\n"@,
            },
        }
    }
}

/// The text of a cell on one line: newlines as spaces, and trimmed.
pub open spec fn cell_line(cell: TableCell) -> Seq<char> {
    trim(replace_all(paragraphs_text(cell.content@), seq!['\n'], seq![' ']))
}

/// The cells of a row between pipes.
pub open spec fn cells_markdown(cells: Seq<TableCell>) -> Seq<char>
    decreases cells.len(),
{
    if cells.len() == 0 {
        Seq::empty()
    } else {
        cells_markdown(cells.drop_last()) + " "@ + cell_line(cells.last()) + " |"@
    }
}

/// The mark of a column's alignment in the separator line.
pub open spec fn alignment_mark(a: Alignment) -> Seq<char> {
    match a {
        Alignment::Left => " --- |"@,
        Alignment::Center => " :---: |"@,
        Alignment::Right => " ---: |"@,
        Alignment::Justify => " --- |"@,
    }
}

/// The alignment marks of the cells of a row.
pub open spec fn separator_markdown(cells: Seq<TableCell>) -> Seq<char>
    decreases cells.len(),
{
    if cells.len() == 0 {
        Seq::empty()
    } else {
        separator_markdown(cells.drop_last()) + alignment_mark(cells.last().alignment)
    }
}

/// A separator line follows row `i`: the first row, and the last header row.
pub open spec fn separator_follows(header_rows: u8, i: int) -> bool {
    i == 0 || (header_rows > 0 && i == header_rows - 1)
}

/// The first `n` rows of a table as Markdown.
pub open spec fn rows_markdown(rows: Seq<TableRow>, header_rows: u8, n: int) -> Seq<char>
    decreases n,
{
    if n <= 0 || n > rows.len() {
        Seq::empty()
    } else {
        let row = rows[n - 1];
        rows_markdown(rows, header_rows, n - 1) + "|"@ + cells_markdown(row.cells@) + "\n"@ + (
        if separator_follows(header_rows, n - 1) {
            "|"@ + separator_markdown(row.cells@) + "\n"@
        } else {
            Seq::empty()
        })
    }
}

/// A table as a Markdown table; nothing where its first row has no cell.
pub open spec fn table_markdown(t: Table) -> Seq<char> {
    if columns_in(t.rows@) == 0 {
        Seq::empty()
    } else {
        rows_markdown(t.rows@, t.header_rows, t.rows@.len() as int) + "\n"@
    }
}

/// The attributes of a cell that spans rows or columns.
pub open spec fn span_attributes(cell: TableCell) -> Seq<char> {
    (if cell.rowspan > 1 {
        " rowspan=\""@ + decimal(cell.rowspan as nat) + "\""@
    } else {
        Seq::empty()
    }) + (if cell.colspan > 1 {
        " colspan=\""@ + decimal(cell.colspan as nat) + "\""@
    } else {
        Seq::empty()
    })
}

/// The cells of a row as HTML cells with the given tag.
pub open spec fn cells_html(cells: Seq<TableCell>, tag: Seq<char>) -> Seq<char>
    decreases cells.len(),
{
    if cells.len() == 0 {
        Seq::empty()
    } else {
        cells_html(cells.drop_last(), tag) + cell_html(cells.last(), tag)
    }
}

/// The rows from `from` up to `to` as HTML rows.
pub open spec fn rows_html(rows: Seq<TableRow>, tag: Seq<char>, from: int, to: int) -> Seq<char>
    decreases to - from,
{
    if to <= from || to > rows.len() || from < 0 {
        Seq::empty()
    } else {
        rows_html(rows, tag, from, to - 1) + "<tr>"@ + cells_html(rows[to - 1].cells@, tag)
            + "</tr>\n"@
    }
}

/// The number of header rows that the table has rows for.
pub open spec fn header_count(t: Table) -> int {
    if t.header_rows <= t.rows@.len() {
        t.header_rows as int
    } else {
        t.rows@.len() as int
    }
}

/// A table as HTML: a head for its header rows, where it has any, and a
/// body for the rest.
pub open spec fn table_html(t: Table) -> Seq<char> {
    let h = header_count(t);
    "<table>\n"@ + (if t.header_rows > 0 {
        "<thead>\n"@ + rows_html(t.rows@, "th"@, 0, h) + "</thead>\n"@
    } else {
        Seq::empty()
    }) + "<tbody>\n"@ + rows_html(t.rows@, "td"@, h, t.rows@.len() as int) + "</tbody>\n"@
        + "</table>\n\n"@
}

/// A table as the options ask for it: nothing for a table without rows,
/// HTML for a table with merged cells where the fallback is HTML, a
/// Markdown table otherwise.
pub open spec fn table_rendered(o: RenderOptions, t: Table) -> Seq<char> {
    if t.rows@.len() == 0 {
        Seq::empty()
    } else if has_merged(t.rows@) && o.table_fallback == TableFallback::Html {
        table_html(t)
    } else {
        table_markdown(t)
    }
}

/// The output ends with a blank line.
pub open spec fn ends_with_blank_line(out: Seq<char>) -> bool {
    out.len() >= 2 && out[out.len() - 1] == '\n' && out[out.len() - 2] == '\n'
}

/// The output after one more block.
pub open spec fn after_block(o: RenderOptions, out: Seq<char>, b: Block) -> Seq<char> {
    match b {
        Block::Paragraph(p) => out + paragraph_markdown(o, p),
        Block::Table(t) => out + table_rendered(o, t),
        Block::Image { resource_id, alt_text, .. } => out + image_markdown(
            o,
            resource_id@,
            alt_text,
        ) + "\n\n"@,
        Block::HorizontalRule => out + "\n---\n\n"@,
        Block::PageBreak | Block::SectionBreak => if ends_with_blank_line(out) {
            out
        } else {
            out + "\n\n"@
        },
        Block::Raw { content } => out + content@ + "\n\n"@,
    }
}

/// The output after the blocks, one after the other.
pub open spec fn after_blocks(o: RenderOptions, out: Seq<char>, blocks: Seq<Block>) -> Seq<char>
    decreases blocks.len(),
{
    if blocks.len() == 0 {
        out
    } else {
        after_block(o, after_blocks(o, out, blocks.drop_last()), blocks.last())
    }
}

/// The output after the pages that the options select.
pub open spec fn after_pages(o: RenderOptions, out: Seq<char>, pages: Seq<Page>) -> Seq<char>
    decreases pages.len(),
{
    if pages.len() == 0 {
        out
    } else {
        let before = after_pages(o, out, pages.drop_last());
        if selects(o.page_selection, pages.last().number) {
            after_blocks(o, before, pages.last().elements@)
        } else {
            before
        }
    }
}

/// The counts after one more block.
pub open spec fn stats_after_block(s: ExtractionStats, b: Block) -> ExtractionStats {
    match b {
        Block::Paragraph(p) => if is_blank(content_text(p.content@)) {
            s
        } else if p.style.heading_level is Some {
            ExtractionStats { heading_count: counted(s.heading_count, 1), ..s }
        } else if p.style.list_info is Some {
            ExtractionStats { list_item_count: counted(s.list_item_count, 1), ..s }
        } else {
            ExtractionStats { paragraph_count: counted(s.paragraph_count, 1), ..s }
        },
        Block::Table(_) => ExtractionStats { table_count: counted(s.table_count, 1), ..s },
        Block::Image { .. } => ExtractionStats { image_count: counted(s.image_count, 1), ..s },
        Block::HorizontalRule => ExtractionStats {
            horizontal_rule_count: counted(s.horizontal_rule_count, 1),
            ..s
        },
        _ => s,
    }
}

/// The counts after the blocks.
pub open spec fn stats_after_blocks(s: ExtractionStats, blocks: Seq<Block>) -> ExtractionStats
    decreases blocks.len(),
{
    if blocks.len() == 0 {
        s
    } else {
        stats_after_block(stats_after_blocks(s, blocks.drop_last()), blocks.last())
    }
}

/// The counts after the pages that the options select.
pub open spec fn stats_after_pages(o: RenderOptions, s: ExtractionStats, pages: Seq<Page>)
    -> ExtractionStats
    decreases pages.len(),
{
    if pages.len() == 0 {
        s
    } else {
        let before = stats_after_pages(o, s, pages.drop_last());
        if selects(o.page_selection, pages.last().number) {
            stats_after_blocks(
                ExtractionStats { page_count: counted(before.page_count, 1), ..before },
                pages.last().elements@,
            )
        } else {
            before
        }
    }
}

/// A document as Markdown: the frontmatter where the options ask for it,
/// the selected pages block by block, cleaned up where the options say how,
/// and trimmed.
pub open spec fn document_markdown(o: RenderOptions, doc: Document) -> Seq<char> {
    let start = if o.include_frontmatter {
        frontmatter_text(doc.metadata)
    } else {
        Seq::empty()
    };
    let body = after_pages(o, start, doc.pages@);
    trim(
        match o.cleanup {
            Some(c) => cleaned(c, body),
            None => body,
        },
    )
}

/// The counts of a render: those of the selected pages, and the words and
/// characters of the output.
pub open spec fn document_stats(o: RenderOptions, doc: Document) -> ExtractionStats {
    let s = stats_after_pages(o, no_stats(), doc.pages@);
    let text = document_markdown(o, doc);
    ExtractionStats {
        word_count: counted(s.word_count, counted(0, words_in(text)) as int),
        char_count: counted(s.char_count, counted(0, inked_chars(text)) as int),
        ..s
    }
}

fn append_wrapped(text: String, on: bool, open: &str, close: &str) -> (r: String)
    ensures
        r@ == wrapped(on, open@, text@, close@),
{
    if on {
        let mut out = String::new();
        append_str(&mut out, open);
        append_str(&mut out, text.as_str());
        append_str(&mut out, close);
        out
    } else {
        text
    }
}

/// Puts a text into the marks of its style; see [`styled`].
pub fn apply_text_style(text: &str, style: &TextStyle) -> (r: String)
    ensures
        r@ == styled(text@, *style),
{
    let a = append_wrapped(text.to_owned(), style.strikethrough, "~~", "~~");
    let b = append_wrapped(a, style.italic, "*", "*");
    let c = append_wrapped(b, style.bold, "**", "**");
    let d = append_wrapped(c, style.superscript, "<sup>", "</sup>");
    let e = append_wrapped(d, style.subscript, "<sub>", "</sub>");
    append_wrapped(e, style.underline, "<u>", "</u>")
}

/// Appends a run of text as Markdown.
pub fn render_text_run(out: &mut String, o: &RenderOptions, run: &TextRun)
    ensures
        final(out)@ == old(out)@ + run_markdown(*o, *run),
{
    let text = if o.escape_special_chars {
        escape_markdown(run.text.as_str())
    } else {
        run.text.clone()
    };
    let s = apply_text_style(text.as_str(), &run.style);
    append_str(out, s.as_str());
}

fn append_image(out: &mut String, o: &RenderOptions, id: &str, alt: &Option<String>)
    ensures
        final(out)@ == old(out)@ + image_markdown(*o, id@, *alt),
{
    append_str(out, "![");
    match alt {
        Some(a) => {
            append_str(out, a.as_str());
        },
        None => {},
    }
    append_str(out, "](");
    append_str(out, o.image_path_prefix.as_str());
    append_str(out, id);
    append_str(out, ")");
    assert(out@ =~= old(out)@ + image_markdown(*o, id@, *alt));
}

fn append_inline(out: &mut String, o: &RenderOptions, c: &InlineContent)
    ensures
        final(out)@ == old(out)@ + inline_markdown(*o, *c),
{
    match c {
        InlineContent::Text(run) => {
            render_text_run(out, o, run);
        },
        InlineContent::LineBreak => {
            if o.preserve_line_breaks {
                append_str(out, "  \n");
            } else {
                append_str(out, " ");
            }
        },
        InlineContent::Link { text, url, title } => {
            append_str(out, "[");
            append_str(out, text.as_str());
            append_str(out, "](");
            append_str(out, url.as_str());
            match title {
                Some(t) => {
                    append_str(out, " \"");
                    append_str(out, t.as_str());
                    append_str(out, "\")");
                    assert(out@ =~= old(out)@ + ("["@ + text@ + "]("@ + url@ + " \""@ + t@
                        + "\")"@));
                },
                None => {
                    append_str(out, ")");
                    assert(out@ =~= old(out)@ + ("["@ + text@ + "]("@ + url@ + ")"@));
                },
            }
        },
        InlineContent::Image { resource_id, alt_text } => {
            append_image(out, o, resource_id.as_str(), alt_text);
        },
    }
}

/// Appends inline content as Markdown.
pub fn render_inline_content(out: &mut String, o: &RenderOptions, content: &Vec<InlineContent>)
    ensures
        final(out)@ == old(out)@ + content_markdown(*o, content@),
{
    let ghost start = out@;
    let mut i: usize = 0;
    assert(out@ =~= start + content_markdown(*o, content@.take(0)));
    while i < content.len()
        invariant
            i <= content.len(),
            out@ == start + content_markdown(*o, content@.take(i as int)),
        decreases content.len() - i,
    {
        assert(content@.take(i + 1).drop_last() == content@.take(i as int));
        let ghost before = out@;
        append_inline(out, o, &content[i]);
        assert(out@ =~= start + (content_markdown(*o, content@.take(i as int))
            + inline_markdown(*o, content@[i as int])));
        i += 1;
    }
    assert(content@.take(content.len() as int) == content@);
}

fn marker_for(o: &RenderOptions, info: &ListInfo) -> (r: Vec<char>)
    ensures
        r@ == list_marker(*o, *info),
{
    match info.style {
        ListStyle::Unordered { marker: _ } => chars1(o.list_marker),
        ListStyle::Ordered { start: _, number_style } => {
            let num: u32 = match info.item_number {
                Some(n) => n,
                None => 1,
            };
            let mut m: Vec<char> = match number_style {
                NumberStyle::Decimal => crate::text::decimal_chars(num as u64),
                NumberStyle::LowerAlpha => chars1(letter('a', num)),
                NumberStyle::UpperAlpha => chars1(letter('A', num)),
                NumberStyle::LowerRoman => {
                    let upper = roman_chars(num);
                    let mut lower: Vec<char> = Vec::new();
                    let mut i: usize = 0;
                    while i < upper.len()
                        invariant
                            i <= upper.len(),
                            lower@ == lowered_text(upper@).take(i as int),
                        decreases upper.len() - i,
                    {
                        lower.push(lower_letter(upper[i]));
                        assert(lower@ =~= lowered_text(upper@).take(i + 1));
                        i += 1;
                    }
                    assert(lowered_text(upper@).take(upper.len() as int) =~= lowered_text(
                        upper@,
                    ));
                    lower
                },
                NumberStyle::UpperRoman => roman_chars(num),
            };
            m.push('.');
            m
        },
    }
}

/// Appends a list item as Markdown: indentation, marker, content.
pub fn render_list_item(out: &mut String, o: &RenderOptions, para: &Paragraph, info: &ListInfo)
    ensures
        final(out)@ == old(out)@ + (repeated("  "@, info.level as nat) + list_marker(*o, *info)
            + " "@ + content_markdown(*o, para.content@) + "\n"@),
{
    append_repeated(out, "  ", info.level as usize);
    let m = marker_for(o, info);
    append_chars(out, &m);
    append_str(out, " ");
    render_inline_content(out, o, &para.content);
    append_str(out, "\n");
    assert(out@ =~= old(out)@ + (repeated("  "@, info.level as nat) + list_marker(*o, *info)
        + " "@ + content_markdown(*o, para.content@) + "\n"@));
}

/// Appends a paragraph as Markdown and counts it; see
/// [`paragraph_markdown`].
pub fn render_paragraph(
    out: &mut String,
    stats: &mut ExtractionStats,
    o: &RenderOptions,
    collect: bool,
    para: &Paragraph,
)
    ensures
        final(out)@ == old(out)@ + paragraph_markdown(*o, *para),
        *final(stats) == if collect {
            stats_after_block(*old(stats), Block::Paragraph(*para))
        } else {
            *old(stats)
        },
{
    if para.is_empty() {
        assert(out@ =~= old(out)@ + Seq::<char>::empty());
        return ;
    }
    match para.style.heading_level {
        Some(level) => {
            if collect {
                stats.add_heading();
            }
            let shown = if level < o.max_heading_level {
                level
            } else {
                o.max_heading_level
            };
            append_repeated(out, "#", shown as usize);
            append_str(out, " ");
            render_inline_content(out, o, &para.content);
            append_str(out, "\n\n");
            assert(out@ =~= old(out)@ + (repeated("#"@, shown_level(level, o.max_heading_level))
                + " "@ + content_markdown(*o, para.content@) + "\n\n"@));
            return ;
        },
        None => {},
    }
    match &para.style.list_info {
        Some(info) => {
            if collect {
                stats.add_list_item();
            }
            render_list_item(out, o, para, info);
            return ;
        },
        None => {},
    }
    if collect {
        stats.add_paragraph();
    }
    render_inline_content(out, o, &para.content);
    append_str(out, "\n\n");
    assert(out@ =~= old(out)@ + (content_markdown(*o, para.content@) + "\n\n"@));
}

fn append_cell_line(out: &mut String, cell: &TableCell)
    ensures
        final(out)@ == old(out)@ + " "@ + cell_line(*cell) + " |"@,
{
    let text = cell.plain_text();
    let flat = replace_chars(&to_chars(text.as_str()), &chars1('\n'), &chars1(' '));
    let t = trim_chars(&flat);
    append_str(out, " ");
    append_chars(out, &t);
    append_str(out, " |");
}

fn append_cells(out: &mut String, cells: &Vec<TableCell>)
    ensures
        final(out)@ == old(out)@ + cells_markdown(cells@),
{
    let ghost start = out@;
    let mut i: usize = 0;
    assert(out@ =~= start + cells_markdown(cells@.take(0)));
    while i < cells.len()
        invariant
            i <= cells.len(),
            out@ == start + cells_markdown(cells@.take(i as int)),
        decreases cells.len() - i,
    {
        assert(cells@.take(i + 1).drop_last() == cells@.take(i as int));
        append_cell_line(out, &cells[i]);
        assert(out@ =~= start + (cells_markdown(cells@.take(i as int)) + " "@ + cell_line(
            cells@[i as int],
        ) + " |"@));
        i += 1;
    }
    assert(cells@.take(cells.len() as int) == cells@);
}

fn append_separator(out: &mut String, cells: &Vec<TableCell>)
    ensures
        final(out)@ == old(out)@ + separator_markdown(cells@),
{
    let ghost start = out@;
    let mut i: usize = 0;
    assert(out@ =~= start + separator_markdown(cells@.take(0)));
    while i < cells.len()
        invariant
            i <= cells.len(),
            out@ == start + separator_markdown(cells@.take(i as int)),
        decreases cells.len() - i,
    {
        assert(cells@.take(i + 1).drop_last() == cells@.take(i as int));
        match cells[i].alignment {
            Alignment::Left => {
                append_str(out, " --- |");
            },
            Alignment::Center => {
                append_str(out, " :---: |");
            },
            Alignment::Right => {
                append_str(out, " ---: |");
            },
            Alignment::Justify => {
                append_str(out, " --- |");
            },
        }
        assert(out@ =~= start + (separator_markdown(cells@.take(i as int)) + alignment_mark(
            cells@[i as int].alignment,
        )));
        i += 1;
    }
    assert(cells@.take(cells.len() as int) == cells@);
}

/// Appends a table as a Markdown table; see [`table_markdown`].
pub fn render_table_markdown(out: &mut String, table: &Table)
    ensures
        final(out)@ == old(out)@ + table_markdown(*table),
{
    if table.column_count() == 0 {
        assert(out@ =~= old(out)@ + Seq::<char>::empty());
        return ;
    }
    let ghost start = out@;
    let n = table.rows.len();
    let mut i: usize = 0;
    assert(out@ =~= start + rows_markdown(table.rows@, table.header_rows, 0));
    while i < n
        invariant
            i <= n,
            n == table.rows.len(),
            out@ == start + rows_markdown(table.rows@, table.header_rows, i as int),
        decreases n - i,
    {
        let ghost before = rows_markdown(table.rows@, table.header_rows, i as int);
        let row = &table.rows[i];
        append_str(out, "|");
        append_cells(out, &row.cells);
        append_str(out, "\n");
        if i == 0 || (table.header_rows > 0 && i == table.header_rows as usize - 1) {
            append_str(out, "|");
            append_separator(out, &row.cells);
            append_str(out, "\n");
            assert(out@ =~= start + (before + "|"@ + cells_markdown(row.cells@) + "\n"@ + ("|"@
                + separator_markdown(row.cells@) + "\n"@)));
        } else {
            assert(out@ =~= start + (before + "|"@ + cells_markdown(row.cells@) + "\n"@
                + Seq::<char>::empty()));
        }
        i += 1;
    }
    append_str(out, "\n");
    assert(out@ =~= old(out)@ + (rows_markdown(table.rows@, table.header_rows, n as int)
        + "\n"@));
}

fn append_span_attributes(out: &mut String, cell: &TableCell)
    ensures
        final(out)@ == old(out)@ + span_attributes(*cell),
{
    if cell.rowspan > 1 {
        append_str(out, " rowspan=\"");
        append_decimal(out, cell.rowspan as u64);
        append_str(out, "\"");
    }
    let ghost mid = out@;
    assert(mid =~= old(out)@ + (if cell.rowspan > 1 {
        " rowspan=\""@ + decimal(cell.rowspan as nat) + "\""@
    } else {
        Seq::<char>::empty()
    }));
    if cell.colspan > 1 {
        append_str(out, " colspan=\"");
        append_decimal(out, cell.colspan as u64);
        append_str(out, "\"");
    }
    assert(out@ =~= mid + (if cell.colspan > 1 {
        " colspan=\""@ + decimal(cell.colspan as nat) + "\""@
    } else {
        Seq::<char>::empty()
    }));
}

/// An HTML cell with the given tag.
pub open spec fn cell_html(cell: TableCell, tag: Seq<char>) -> Seq<char> {
    "<"@ + tag + span_attributes(cell) + ">"@ + paragraphs_text(cell.content@) + "</"@ + tag
        + ">"@
}

fn append_html_cell(out: &mut String, cell: &TableCell, tag: &str)
    ensures
        final(out)@ == old(out)@ + cell_html(*cell, tag@),
{
    append_str(out, "<");
    append_str(out, tag);
    append_span_attributes(out, cell);
    append_str(out, ">");
    let text = cell.plain_text();
    append_str(out, text.as_str());
    append_str(out, "</");
    append_str(out, tag);
    append_str(out, ">");
    assert(out@ =~= old(out)@ + cell_html(*cell, tag@));
}

fn append_html_cells(out: &mut String, cells: &Vec<TableCell>, tag: &str)
    ensures
        final(out)@ == old(out)@ + cells_html(cells@, tag@),
{
    let ghost start = out@;
    let mut i: usize = 0;
    assert(out@ =~= start + cells_html(cells@.take(0), tag@));
    while i < cells.len()
        invariant
            i <= cells.len(),
            out@ == start + cells_html(cells@.take(i as int), tag@),
        decreases cells.len() - i,
    {
        assert(cells@.take(i + 1).drop_last() == cells@.take(i as int));
        let ghost before = cells_html(cells@.take(i as int), tag@);
        append_html_cell(out, &cells[i], tag);
        assert(out@ =~= start + (before + cell_html(cells@[i as int], tag@)));
        assert(cells_html(cells@.take(i + 1), tag@) =~= before + cell_html(
            cells@[i as int],
            tag@,
        ));
        i += 1;
    }
    assert(cells@.take(cells.len() as int) == cells@);
}

fn append_html_rows(out: &mut String, rows: &Vec<TableRow>, tag: &str, from: usize, to: usize)
    requires
        from <= to <= rows.len(),
    ensures
        final(out)@ == old(out)@ + rows_html(rows@, tag@, from as int, to as int),
{
    let ghost start = out@;
    let mut i: usize = from;
    assert(out@ =~= start + rows_html(rows@, tag@, from as int, from as int));
    while i < to
        invariant
            from <= i <= to <= rows.len(),
            out@ == start + rows_html(rows@, tag@, from as int, i as int),
        decreases to - i,
    {
        let ghost before = rows_html(rows@, tag@, from as int, i as int);
        append_str(out, "<tr>");
        append_html_cells(out, &rows[i].cells, tag);
        append_str(out, "</tr>\n");
        assert(out@ =~= start + (before + "<tr>"@ + cells_html(rows@[i as int].cells@, tag@)
            + "</tr>\n"@));
        i += 1;
    }
}

/// Appends a table as HTML; see [`table_html`].
pub fn render_table_html(out: &mut String, table: &Table)
    ensures
        final(out)@ == old(out)@ + table_html(*table),
{
    let n = table.rows.len();
    let h: usize = if (table.header_rows as usize) <= n {
        table.header_rows as usize
    } else {
        n
    };
    append_str(out, "<table>\n");
    let ghost opened = out@;
    if table.header_rows > 0 {
        append_str(out, "<thead>\n");
        append_html_rows(out, &table.rows, "th", 0, h);
        append_str(out, "</thead>\n");
        assert(out@ =~= opened + ("<thead>\n"@ + rows_html(table.rows@, "th"@, 0, h as int)
            + "</thead>\n"@));
    } else {
        assert(out@ =~= opened + Seq::<char>::empty());
    }
    let ghost headed = out@;
    append_str(out, "<tbody>\n");
    append_html_rows(out, &table.rows, "td", h, n);
    append_str(out, "</tbody>\n");
    append_str(out, "</table>\n\n");
    assert(out@ =~= headed + "<tbody>\n"@ + rows_html(table.rows@, "td"@, h as int, n as int)
        + "</tbody>\n"@ + "</table>\n\n"@);
    assert(out@ =~= old(out)@ + table_html(*table));
}

/// Appends a table as the options ask for it; see [`table_rendered`].
pub fn render_table(out: &mut String, o: &RenderOptions, table: &Table)
    ensures
        final(out)@ == old(out)@ + table_rendered(*o, *table),
{
    if table.is_empty() {
        assert(out@ =~= old(out)@ + Seq::<char>::empty());
        return ;
    }
    let html = match o.table_fallback {
        TableFallback::Html => true,
        _ => false,
    };
    if table.has_merged_cells() && html {
        render_table_html(out, table);
    } else {
        render_table_markdown(out, table);
    }
}

fn ends_blank(out: &String) -> (r: bool)
    ensures
        r == ends_with_blank_line(out@),
{
    let t = to_chars(out.as_str());
    let n = t.len();
    n >= 2 && t[n - 1] == '\n' && t[n - 2] == '\n'
}

/// Appends a block as Markdown and counts it; see [`after_block`].
pub fn render_block(
    out: &mut String,
    stats: &mut ExtractionStats,
    o: &RenderOptions,
    collect: bool,
    block: &Block,
)
    ensures
        final(out)@ == after_block(*o, old(out)@, *block),
        *final(stats) == if collect {
            stats_after_block(*old(stats), *block)
        } else {
            *old(stats)
        },
{
    match block {
        Block::Paragraph(p) => {
            render_paragraph(out, stats, o, collect, p);
        },
        Block::Table(t) => {
            if collect {
                stats.add_table();
            }
            render_table(out, o, t);
        },
        Block::Image { resource_id, alt_text, .. } => {
            if collect {
                stats.add_image();
            }
            append_image(out, o, resource_id.as_str(), alt_text);
            append_str(out, "\n\n");
        },
        Block::HorizontalRule => {
            if collect {
                stats.add_horizontal_rule();
            }
            append_str(out, "\n---\n\n");
        },
        Block::PageBreak => {
            if !ends_blank(out) {
                append_str(out, "\n\n");
            }
        },
        Block::SectionBreak => {
            if !ends_blank(out) {
                append_str(out, "\n\n");
            }
        },
        Block::Raw { content } => {
            append_str(out, content.as_str());
            append_str(out, "\n\n");
        },
    }
}

/// Appends the blocks of a page and counts the page and its blocks.
pub fn render_page(
    out: &mut String,
    stats: &mut ExtractionStats,
    o: &RenderOptions,
    collect: bool,
    page: &Page,
)
    ensures
        final(out)@ == after_blocks(*o, old(out)@, page.elements@),
        *final(stats) == if collect {
            stats_after_blocks(
                ExtractionStats { page_count: counted(old(stats).page_count, 1), ..*old(stats) },
                page.elements@,
            )
        } else {
            *old(stats)
        },
{
    if collect {
        stats.add_page();
    }
    let ghost counted_page = *stats;
    let mut i: usize = 0;
    while i < page.elements.len()
        invariant
            i <= page.elements.len(),
            out@ == after_blocks(*o, old(out)@, page.elements@.take(i as int)),
            *stats == if collect {
                stats_after_blocks(counted_page, page.elements@.take(i as int))
            } else {
                counted_page
            },
        decreases page.elements.len() - i,
    {
        assert(page.elements@.take(i + 1).drop_last() == page.elements@.take(i as int));
        render_block(out, stats, o, collect, &page.elements[i]);
        i += 1;
    }
    assert(page.elements@.take(page.elements.len() as int) == page.elements@);
}

/// Renders documents as Markdown.
#[derive(Debug, Clone)]
pub struct MarkdownRenderer {
    options: RenderOptions,
    stats: ExtractionStats,
}

impl MarkdownRenderer {
    /// A renderer with the given options and all counts at zero.
    pub fn new(options: RenderOptions) -> (r: MarkdownRenderer)
        ensures
            r.options() == options,
            r.stats() == no_stats(),
    {
        MarkdownRenderer { options, stats: ExtractionStats::new() }
    }

    /// The options of the renderer.
    pub closed spec fn options(&self) -> RenderOptions {
        self.options
    }

    /// The counts of the renderer.
    pub closed spec fn stats(&self) -> ExtractionStats {
        self.stats
    }

    /// Renders a document as Markdown; see [`document_markdown`].
    pub fn render(self, doc: &Document) -> (r: Result<String, Error>)
        ensures
            r matches Ok(s) && s@ == document_markdown(self.options(), *doc),
    {
        let mut stats = self.stats;
        let collect = self.options.collect_stats;
        Ok(render_document(&self.options, &mut stats, collect, doc))
    }

    /// Renders a document as Markdown and counts what is rendered; see
    /// [`document_markdown`] and [`document_stats`].
    pub fn render_with_stats(self, doc: &Document) -> (r: Result<RenderResult, Error>)
        ensures
            r matches Ok(res) && res.content@ == document_markdown(self.options(), *doc)
                && res.stats == document_stats(self.options(), *doc) && res.metadata
                == doc.metadata,
    {
        let mut stats = ExtractionStats::new();
        let content = render_document(&self.options, &mut stats, true, doc);
        stats.count_text(content.as_str());
        Ok(RenderResult::new(content, doc.metadata.duplicate(), stats))
    }
}

/// Renders a document as Markdown and, where `collect` is set, counts the
/// pages and blocks rendered.
pub fn render_document(
    o: &RenderOptions,
    stats: &mut ExtractionStats,
    collect: bool,
    doc: &Document,
) -> (r: String)
    ensures
        r@ == document_markdown(*o, *doc),
        *final(stats) == if collect {
            stats_after_pages(*o, *old(stats), doc.pages@)
        } else {
            *old(stats)
        },
{
    let mut out = String::new();
    if o.include_frontmatter {
        let fm = doc.metadata.to_yaml_frontmatter();
        append_str(&mut out, fm.as_str());
    }
    let ghost start = out@;
    let mut i: usize = 0;
    while i < doc.pages.len()
        invariant
            i <= doc.pages.len(),
            out@ == after_pages(*o, start, doc.pages@.take(i as int)),
            *stats == if collect {
                stats_after_pages(*o, *old(stats), doc.pages@.take(i as int))
            } else {
                *old(stats)
            },
        decreases doc.pages.len() - i,
    {
        assert(doc.pages@.take(i + 1).drop_last() == doc.pages@.take(i as int));
        if o.page_selection.includes(doc.pages[i].number) {
            render_page(&mut out, stats, o, collect, &doc.pages[i]);
        }
        i += 1;
    }
    assert(doc.pages@.take(doc.pages.len() as int) == doc.pages@);
    match &o.cleanup {
        Some(c) => {
            let pipeline = CleanupPipeline::new(*c);
            out = pipeline.process(out.as_str());
        },
        None => {},
    }
    crate::text::trim_str(out.as_str())
}

/// Renders a document as Markdown; see [`document_markdown`].
pub fn to_markdown(doc: &Document, options: &RenderOptions) -> (r: Result<String, Error>)
    ensures
        r matches Ok(s) && s@ == document_markdown(*options, *doc),
{
    let mut stats = ExtractionStats::new();
    Ok(render_document(options, &mut stats, options.collect_stats, doc))
}

/// Renders a document as Markdown and counts what is rendered; see
/// [`document_stats`].
pub fn to_markdown_with_stats(doc: &Document, options: &RenderOptions) -> (r: Result<
    RenderResult,
    Error,
>)
    ensures
        r matches Ok(res) && res.content@ == document_markdown(*options, *doc) && res.stats
            == document_stats(*options, *doc) && res.metadata == doc.metadata,
{
    let mut stats = ExtractionStats::new();
    let content = render_document(options, &mut stats, true, doc);
    stats.count_text(content.as_str());
    Ok(RenderResult::new(content, doc.metadata.duplicate(), stats))
}

} // verus!
