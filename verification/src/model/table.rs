//! Tables: rows of cells that hold paragraphs.

use crate::model::paragraph::{content_text, is_body_style, is_plain_text, Alignment, Paragraph};
use crate::text::{append_str, is_blank, is_blank_str, push_char};
use vstd::prelude::*;

verus! {

/// Vertical alignment within a cell.
#[derive(Debug, Clone, Copy, PartialEq, Eq, Structural)]
pub enum VerticalAlignment {
    /// At the top; the default.
    Top,
    /// In the middle.
    Middle,
    /// At the bottom.
    Bottom,
}

impl Default for VerticalAlignment {
    fn default() -> (r: VerticalAlignment)
        ensures
            r == VerticalAlignment::Top,
    {
        VerticalAlignment::Top
    }
}

/// A cell of a table.
#[derive(Debug, Clone)]
pub struct TableCell {
    /// The paragraphs in the cell.
    pub content: Vec<Paragraph>,
    /// The number of rows the cell spans, at least 1.
    pub rowspan: u8,
    /// The number of columns the cell spans, at least 1.
    pub colspan: u8,
    /// Horizontal alignment.
    pub alignment: Alignment,
    /// Vertical alignment.
    pub vertical_alignment: VerticalAlignment,
}

/// The plain texts of the paragraphs, joined by single spaces.
pub open spec fn paragraphs_text(content: Seq<Paragraph>) -> Seq<char>
    decreases content.len(),
{
    if content.len() == 0 {
        Seq::empty()
    } else if content.len() == 1 {
        content_text(content[0].content@)
    } else {
        paragraphs_text(content.drop_last()) + seq![' '] + content_text(content.last().content@)
    }
}

/// The cell spans one row and one column and is aligned left and top.
pub open spec fn is_simple_cell(c: TableCell) -> bool {
    c.rowspan == 1 && c.colspan == 1 && c.alignment == Alignment::Left && c.vertical_alignment
        == VerticalAlignment::Top
}

/// The cell is a simple cell with one plain paragraph of `text`.
pub open spec fn is_text_cell(c: TableCell, text: Seq<char>) -> bool {
    is_simple_cell(c) && c.content@.len() == 1 && is_plain_text(c.content@[0].content@, text)
        && is_body_style(c.content@[0].style)
}

impl TableCell {
    /// A simple cell with one plain paragraph.
    pub fn text(text: &str) -> (r: TableCell)
        ensures
            is_text_cell(r, text@),
    {
        let mut content: Vec<Paragraph> = Vec::new();
        content.push(Paragraph::with_text(text));
        TableCell {
            content,
            rowspan: 1,
            colspan: 1,
            alignment: Alignment::Left,
            vertical_alignment: VerticalAlignment::Top,
        }
    }

    /// A simple cell without content.
    pub fn empty() -> (r: TableCell)
        ensures
            is_simple_cell(r),
            r.content@.len() == 0,
    {
        TableCell {
            content: Vec::new(),
            rowspan: 1,
            colspan: 1,
            alignment: Alignment::Left,
            vertical_alignment: VerticalAlignment::Top,
        }
    }

    /// A simple cell with the given paragraphs.
    pub fn with_content(content: Vec<Paragraph>) -> (r: TableCell)
        ensures
            is_simple_cell(r),
            r.content == content,
    {
        TableCell {
            content,
            rowspan: 1,
            colspan: 1,
            alignment: Alignment::Left,
            vertical_alignment: VerticalAlignment::Top,
        }
    }

    /// The cell with another column span.
    pub fn colspan(self, span: u8) -> (r: TableCell)
        ensures
            r == (TableCell { colspan: span, ..self }),
    {
        let mut c = self;
        c.colspan = span;
        c
    }

    /// The cell with another row span.
    pub fn rowspan(self, span: u8) -> (r: TableCell)
        ensures
            r == (TableCell { rowspan: span, ..self }),
    {
        let mut c = self;
        c.rowspan = span;
        c
    }

    /// The cell with another alignment.
    pub fn align(self, alignment: Alignment) -> (r: TableCell)
        ensures
            r == (TableCell { alignment, ..self }),
    {
        let mut c = self;
        c.alignment = alignment;
        c
    }

    /// The plain text of the cell: that of its paragraphs, joined by spaces.
    pub fn plain_text(&self) -> (r: String)
        ensures
            r@ == paragraphs_text(self.content@),
    {
        let mut out = String::new();
        let mut i: usize = 0;
        while i < self.content.len()
            invariant
                i <= self.content.len(),
                out@ == paragraphs_text(self.content@.take(i as int)),
            decreases self.content.len() - i,
        {
            assert(self.content@.take(i + 1).drop_last() == self.content@.take(i as int));
            let ghost before = out@;
            if i > 0 {
                push_char(&mut out, ' ');
            }
            let t = self.content[i].plain_text();
            append_str(&mut out, t.as_str());
            proof {
                if i == 0 {
                    assert(out@ =~= content_text(self.content@[0].content@));
                } else {
                    assert(out@ =~= before + seq![' '] + content_text(
                        self.content@[i as int].content@,
                    ));
                }
            }
            i += 1;
        }
        assert(self.content@.take(self.content.len() as int) == self.content@);
        out
    }

    /// Tests whether the cell's plain text is blank.
    pub fn is_empty(&self) -> (r: bool)
        ensures
            r == is_blank(paragraphs_text(self.content@)),
    {
        let t = self.plain_text();
        is_blank_str(t.as_str())
    }

    /// Tests whether the cell spans more than one row or column.
    pub fn is_merged(&self) -> (r: bool)
        ensures
            r == (self.rowspan > 1 || self.colspan > 1),
    {
        self.rowspan > 1 || self.colspan > 1
    }
}

/// A row of a table.
#[derive(Debug, Clone)]
pub struct TableRow {
    /// The cells, left to right.
    pub cells: Vec<TableCell>,
    /// Whether the row belongs to the header.
    pub is_header: bool,
}

/// The plain texts of the cells, joined by tabs.
pub open spec fn cells_text(cells: Seq<TableCell>) -> Seq<char>
    decreases cells.len(),
{
    if cells.len() == 0 {
        Seq::empty()
    } else if cells.len() == 1 {
        paragraphs_text(cells[0].content@)
    } else {
        cells_text(cells.drop_last()) + seq!['\t'] + paragraphs_text(cells.last().content@)
    }
}

/// Some cell spans more than one row or column.
pub open spec fn any_merged(cells: Seq<TableCell>) -> bool {
    exists|i: int| 0 <= i < cells.len() && ((#[trigger] cells[i]).rowspan > 1 || cells[i].colspan
        > 1)
}

impl TableRow {
    /// A body row of the given cells.
    pub fn new(cells: Vec<TableCell>) -> (r: TableRow)
        ensures
            r.cells == cells,
            !r.is_header,
    {
        TableRow { cells, is_header: false }
    }

    /// A header row of the given cells.
    pub fn header(cells: Vec<TableCell>) -> (r: TableRow)
        ensures
            r.cells == cells,
            r.is_header,
    {
        TableRow { cells, is_header: true }
    }

    /// A body row with one text cell for each value.
    pub fn from_strings(values: &[&str]) -> (r: TableRow)
        ensures
            !r.is_header,
            r.cells@.len() == values@.len(),
            forall|i: int|
                0 <= i < values@.len() ==> is_text_cell(#[trigger] r.cells@[i], values@[i]@),
    {
        let mut cells: Vec<TableCell> = Vec::new();
        let mut i: usize = 0;
        while i < values.len()
            invariant
                i <= values.len(),
                cells@.len() == i,
                forall|j: int| 0 <= j < i ==> is_text_cell(#[trigger] cells@[j], values@[j]@),
            decreases values.len() - i,
        {
            cells.push(TableCell::text(values[i]));
            i += 1;
        }
        TableRow { cells, is_header: false }
    }

    /// The plain text of the row: that of its cells, joined by tabs.
    pub fn plain_text(&self) -> (r: String)
        ensures
            r@ == cells_text(self.cells@),
    {
        let mut out = String::new();
        let mut i: usize = 0;
        while i < self.cells.len()
            invariant
                i <= self.cells.len(),
                out@ == cells_text(self.cells@.take(i as int)),
            decreases self.cells.len() - i,
        {
            assert(self.cells@.take(i + 1).drop_last() == self.cells@.take(i as int));
            let ghost before = out@;
            if i > 0 {
                push_char(&mut out, '\t');
            }
            let t = self.cells[i].plain_text();
            append_str(&mut out, t.as_str());
            proof {
                if i == 0 {
                    assert(out@ =~= paragraphs_text(self.cells@[0].content@));
                } else {
                    assert(out@ =~= before + seq!['\t'] + paragraphs_text(
                        self.cells@[i as int].content@,
                    ));
                }
            }
            i += 1;
        }
        assert(self.cells@.take(self.cells.len() as int) == self.cells@);
        out
    }
}

/// A table. Column widths are in thousandths of a point.
#[derive(Debug, Clone)]
pub struct Table {
    /// The rows, top to bottom.
    pub rows: Vec<TableRow>,
    /// The number of header rows; 0 for a table without header.
    pub header_rows: u8,
    /// The widths of the columns, where known.
    pub column_widths: Option<Vec<i64>>,
    /// The caption.
    pub caption: Option<String>,
}

/// The plain texts of the rows, joined by newlines.
pub open spec fn rows_text(rows: Seq<TableRow>) -> Seq<char>
    decreases rows.len(),
{
    if rows.len() == 0 {
        Seq::empty()
    } else if rows.len() == 1 {
        cells_text(rows[0].cells@)
    } else {
        rows_text(rows.drop_last()) + seq!['\n'] + cells_text(rows.last().cells@)
    }
}

/// Some cell of some row spans more than one row or column.
pub open spec fn has_merged(rows: Seq<TableRow>) -> bool {
    exists|i: int| 0 <= i < rows.len() && any_merged((#[trigger] rows[i]).cells@)
}

/// The number of columns: the number of cells of the first row.
pub open spec fn columns_in(rows: Seq<TableRow>) -> int {
    if rows.len() == 0 {
        0
    } else {
        rows[0].cells@.len() as int
    }
}

impl Table {
    /// An empty table without header.
    pub fn new() -> (r: Table)
        ensures
            r.rows@.len() == 0,
            r.header_rows == 0,
            r.column_widths is None,
            r.caption is None,
    {
        Table { rows: Vec::new(), header_rows: 0, column_widths: None, caption: None }
    }

    /// An empty table that expects `header_rows` header rows.
    pub fn with_header(header_rows: u8) -> (r: Table)
        ensures
            r.rows@.len() == 0,
            r.header_rows == header_rows,
            r.column_widths is None,
            r.caption is None,
    {
        Table { rows: Vec::new(), header_rows, column_widths: None, caption: None }
    }

    /// Appends a row.
    pub fn add_row(&mut self, row: TableRow)
        ensures
            final(self).rows@ == old(self).rows@.push(row),
            final(self).header_rows == old(self).header_rows,
            final(self).column_widths == old(self).column_widths,
            final(self).caption == old(self).caption,
    {
        self.rows.push(row);
    }

    /// The number of rows.
    pub fn row_count(&self) -> (r: usize)
        ensures
            r == self.rows@.len(),
    {
        self.rows.len()
    }

    /// The number of columns, taken from the first row.
    pub fn column_count(&self) -> (r: usize)
        ensures
            r == columns_in(self.rows@),
    {
        if self.rows.len() == 0 {
            0
        } else {
            self.rows[0].cells.len()
        }
    }

    /// Tests whether the table has no row.
    pub fn is_empty(&self) -> (r: bool)
        ensures
            r == (self.rows@.len() == 0),
    {
        self.rows.len() == 0
    }

    /// The header rows.
    pub fn header(&self) -> (r: &[TableRow])
        requires
            self.header_rows <= self.rows@.len(),
        ensures
            r@ == self.rows@.subrange(0, self.header_rows as int),
    {
        vstd::slice::slice_subrange(self.rows.as_slice(), 0, self.header_rows as usize)
    }

    /// The rows after the header.
    pub fn body(&self) -> (r: &[TableRow])
        requires
            self.header_rows <= self.rows@.len(),
        ensures
            r@ == self.rows@.subrange(self.header_rows as int, self.rows@.len() as int),
    {
        vstd::slice::slice_subrange(
            self.rows.as_slice(),
            self.header_rows as usize,
            self.rows.len(),
        )
    }

    /// The plain text of the table: cells joined by tabs, rows by newlines.
    pub fn plain_text(&self) -> (r: String)
        ensures
            r@ == rows_text(self.rows@),
    {
        let mut out = String::new();
        let mut i: usize = 0;
        while i < self.rows.len()
            invariant
                i <= self.rows.len(),
                out@ == rows_text(self.rows@.take(i as int)),
            decreases self.rows.len() - i,
        {
            assert(self.rows@.take(i + 1).drop_last() == self.rows@.take(i as int));
            let ghost before = out@;
            if i > 0 {
                push_char(&mut out, '\n');
            }
            let t = self.rows[i].plain_text();
            append_str(&mut out, t.as_str());
            proof {
                if i == 0 {
                    assert(out@ =~= cells_text(self.rows@[0].cells@));
                } else {
                    assert(out@ =~= before + seq!['\n'] + cells_text(self.rows@[i as int].cells@));
                }
            }
            i += 1;
        }
        assert(self.rows@.take(self.rows.len() as int) == self.rows@);
        out
    }

    /// Tests whether some cell spans more than one row or column.
    pub fn has_merged_cells(&self) -> (r: bool)
        ensures
            r == has_merged(self.rows@),
    {
        let mut i: usize = 0;
        while i < self.rows.len()
            invariant
                i <= self.rows.len(),
                forall|k: int| 0 <= k < i ==> !any_merged((#[trigger] self.rows@[k]).cells@),
            decreases self.rows.len() - i,
        {
            let row = &self.rows[i];
            let mut j: usize = 0;
            while j < row.cells.len()
                invariant
                    j <= row.cells.len(),
                    i < self.rows.len(),
                    row == &self.rows@[i as int],
                    forall|k: int|
                        0 <= k < j ==> !((#[trigger] row.cells@[k]).rowspan > 1
                            || row.cells@[k].colspan > 1),
                decreases row.cells.len() - j,
            {
                if row.cells[j].rowspan > 1 || row.cells[j].colspan > 1 {
                    assert(any_merged(self.rows@[i as int].cells@));
                    return true;
                }
                j += 1;
            }
            i += 1;
        }
        false
    }
}

impl Default for Table {
    fn default() -> (r: Table)
        ensures
            r.rows@.len() == 0,
            r.header_rows == 0,
    {
        Table::new()
    }
}

} // verus!
