//! Visitors: a say in how each element of a document is rendered.

use crate::model::paragraph::Paragraph;
use crate::model::table::{paragraphs_text, Table, TableCell, TableRow};
use crate::render::markdown::shown_level;
use crate::text::{append_repeated, append_str, push_char, repeated};
use vstd::prelude::*;

verus! {

/// What a visitor decides for an element.
#[derive(Debug, Clone)]
pub enum VisitorAction {
    /// The element is rendered as usual; the default.
    Continue,
    /// The given text stands for the element.
    Replace(String),
    /// The element is left out.
    Skip,
}

impl Default for VisitorAction {
    fn default() -> (r: VisitorAction)
        ensures
            r is Continue,
    {
        VisitorAction::Continue
    }
}

impl VisitorAction {
    /// Tests whether the element is left out.
    pub fn should_skip(&self) -> (r: bool)
        ensures
            r == (*self is Skip),
    {
        match self {
            VisitorAction::Skip => true,
            _ => false,
        }
    }

    /// Tests whether a text stands for the element.
    pub fn is_replace(&self) -> (r: bool)
        ensures
            r == (*self is Replace),
    {
        match self {
            VisitorAction::Replace(_) => true,
            _ => false,
        }
    }

    /// The text that stands for the element.
    pub fn replacement(&self) -> (r: Option<&str>)
        ensures
            match *self {
                VisitorAction::Replace(s) => r matches Some(t) && t@ == s@,
                _ => r is None,
            },
    {
        match self {
            VisitorAction::Replace(s) => Some(s.as_str()),
            _ => None,
        }
    }
}

/// A say in how the elements of a document are rendered. Every method has a
/// default that lets the element be rendered as usual.
pub trait DocumentVisitor {
    /// Called for a paragraph.
    fn visit_paragraph(&mut self, para: &Paragraph) -> VisitorAction {
        VisitorAction::Continue
    }

    /// Called for a table.
    fn visit_table(&mut self, table: &Table) -> VisitorAction {
        VisitorAction::Continue
    }

    /// Called for an image.
    fn visit_image(&mut self, id: &str, alt: Option<&str>) -> VisitorAction {
        VisitorAction::Continue
    }

    /// Called for a heading.
    fn visit_heading(&mut self, text: &str, level: u8) -> VisitorAction {
        VisitorAction::Continue
    }

    /// Called for a horizontal rule.
    fn visit_horizontal_rule(&mut self) -> VisitorAction {
        VisitorAction::Continue
    }

    /// Called for a list item.
    fn visit_list_item(&mut self, para: &Paragraph, level: u8, ordered: bool) -> VisitorAction {
        VisitorAction::Continue
    }

    /// Called for raw content.
    fn visit_raw(&mut self, content: &str) -> VisitorAction {
        VisitorAction::Continue
    }

    /// Called when a page starts.
    fn on_page_start(&mut self, page_number: u32) {
    }

    /// Called when a page ends.
    fn on_page_end(&mut self, page_number: u32) {
    }
}

/// The visitor that lets everything be rendered as usual.
#[derive(Debug, Clone, Copy)]
pub struct DefaultVisitor;

impl DefaultVisitor {
    /// The visitor.
    pub fn new() -> (r: DefaultVisitor) {
        DefaultVisitor
    }
}

impl Default for DefaultVisitor {
    fn default() -> (r: DefaultVisitor) {
        DefaultVisitor
    }
}

impl DocumentVisitor for DefaultVisitor {
    fn visit_paragraph(&mut self, para: &Paragraph) -> (r: VisitorAction)
        ensures
            r is Continue,
    {
        VisitorAction::Continue
    }

    fn visit_table(&mut self, table: &Table) -> (r: VisitorAction)
        ensures
            r is Continue,
    {
        VisitorAction::Continue
    }

    fn visit_image(&mut self, id: &str, alt: Option<&str>) -> (r: VisitorAction)
        ensures
            r is Continue,
    {
        VisitorAction::Continue
    }

    fn visit_heading(&mut self, text: &str, level: u8) -> (r: VisitorAction)
        ensures
            r is Continue,
    {
        VisitorAction::Continue
    }

    fn visit_horizontal_rule(&mut self) -> (r: VisitorAction)
        ensures
            r is Continue,
    {
        VisitorAction::Continue
    }

    fn visit_list_item(&mut self, para: &Paragraph, level: u8, ordered: bool) -> (r: VisitorAction)
        ensures
            r is Continue,
    {
        VisitorAction::Continue
    }

    fn visit_raw(&mut self, content: &str) -> (r: VisitorAction)
        ensures
            r is Continue,
    {
        VisitorAction::Continue
    }
}

/// The visitor that leaves all images out.
#[derive(Debug, Clone, Copy)]
pub struct SkipImagesVisitor;

impl Default for SkipImagesVisitor {
    fn default() -> (r: SkipImagesVisitor) {
        SkipImagesVisitor
    }
}

impl DocumentVisitor for SkipImagesVisitor {
    fn visit_image(&mut self, id: &str, alt: Option<&str>) -> (r: VisitorAction)
        ensures
            r is Skip,
    {
        VisitorAction::Skip
    }
}

/// The cells of a row as plain text, with ` | ` between them.
pub open spec fn piped_cells(cells: Seq<TableCell>) -> Seq<char>
    decreases cells.len(),
{
    if cells.len() == 0 {
        Seq::empty()
    } else if cells.len() == 1 {
        paragraphs_text(cells[0].content@)
    } else {
        piped_cells(cells.drop_last()) + " | "@ + paragraphs_text(cells.last().content@)
    }
}

/// The rows of a table as plain lines, and an empty line after them.
pub open spec fn piped_rows(rows: Seq<TableRow>) -> Seq<char>
    decreases rows.len(),
{
    if rows.len() == 0 {
        Seq::empty()
    } else {
        piped_rows(rows.drop_last()) + piped_cells(rows.last().cells@) + "\n"@
    }
}

/// The visitor that renders tables as plain lines of cells.
#[derive(Debug, Clone, Copy)]
pub struct SimpleTableVisitor;

impl Default for SimpleTableVisitor {
    fn default() -> (r: SimpleTableVisitor) {
        SimpleTableVisitor
    }
}

fn append_piped_cells(out: &mut String, cells: &Vec<TableCell>)
    ensures
        final(out)@ == old(out)@ + piped_cells(cells@),
{
    let ghost start = out@;
    let mut i: usize = 0;
    assert(out@ =~= start + piped_cells(cells@.take(0)));
    while i < cells.len()
        invariant
            i <= cells.len(),
            out@ == start + piped_cells(cells@.take(i as int)),
        decreases cells.len() - i,
    {
        assert(cells@.take(i + 1).drop_last() == cells@.take(i as int));
        let ghost before = piped_cells(cells@.take(i as int));
        if i > 0 {
            append_str(out, " | ");
        }
        let t = cells[i].plain_text();
        append_str(out, t.as_str());
        proof {
            if i == 0 {
                assert(out@ =~= start + paragraphs_text(cells@[0].content@));
            } else {
                assert(out@ =~= start + (before + " | "@ + paragraphs_text(
                    cells@[i as int].content@,
                )));
            }
        }
        i += 1;
    }
    assert(cells@.take(cells.len() as int) == cells@);
}

impl DocumentVisitor for SimpleTableVisitor {
    fn visit_table(&mut self, table: &Table) -> (r: VisitorAction)
        ensures
            r matches VisitorAction::Replace(s) && s@ == piped_rows(table.rows@) + "\n"@,
    {
        let mut out = String::new();
        let mut i: usize = 0;
        while i < table.rows.len()
            invariant
                i <= table.rows.len(),
                out@ == piped_rows(table.rows@.take(i as int)),
            decreases table.rows.len() - i,
        {
            assert(table.rows@.take(i + 1).drop_last() == table.rows@.take(i as int));
            append_piped_cells(&mut out, &table.rows[i].cells);
            push_char(&mut out, '\n');
            proof {
                reveal_strlit("\n");
                assert("\n"@ =~= seq!['\n']);
            }
            i += 1;
        }
        assert(table.rows@.take(table.rows.len() as int) == table.rows@);
        push_char(&mut out, '\n');
        proof {
            reveal_strlit("\n");
            assert("\n"@ =~= seq!['\n']);
        }
        VisitorAction::Replace(out)
    }
}

/// The visitor that renders no heading deeper than a given level.
#[derive(Debug, Clone, Copy)]
pub struct MaxHeadingDepthVisitor {
    max_level: u8,
}

impl MaxHeadingDepthVisitor {
    /// A visitor for the given deepest level, brought into 1 to 6.
    pub fn new(max_level: u8) -> (r: MaxHeadingDepthVisitor)
        ensures
            r.max_level() == crate::model::paragraph::clamp_level(max_level),
    {
        MaxHeadingDepthVisitor {
            max_level: if max_level < 1 {
                1
            } else if max_level > 6 {
                6
            } else {
                max_level
            },
        }
    }

    /// The deepest level that headings are rendered at.
    pub closed spec fn max_level(&self) -> u8 {
        self.max_level
    }
}

impl DocumentVisitor for MaxHeadingDepthVisitor {
    fn visit_heading(&mut self, text: &str, level: u8) -> (r: VisitorAction)
        ensures
            r matches VisitorAction::Replace(s) && s@ == repeated(
                "#"@,
                shown_level(level, old(self).max_level()),
            ) + " "@ + text@ + "\n\n"@,
            final(self).max_level() == old(self).max_level(),
    {
        let shown = if level < self.max_level {
            level
        } else {
            self.max_level
        };
        let mut out = String::new();
        append_repeated(&mut out, "#", shown as usize);
        append_str(&mut out, " ");
        append_str(&mut out, text);
        append_str(&mut out, "\n\n");
        VisitorAction::Replace(out)
    }
}

/// Visitors in a row: for each element the first that does not let it be
/// rendered as usual decides.
pub struct CompositeVisitor {
    visitors: Vec<Seat>,
}

/// The place of one visitor in a row.
struct Seat {
    visitor: Box<dyn DocumentVisitor>,
}

proof fn lemma_one_more(seats: Seq<Seat>, seat: Seat)
    ensures
        seats.push(seat).len() == seats.len() + 1,
{
}

impl CompositeVisitor {
    /// The number of visitors in the row.
    pub closed spec fn len(&self) -> nat {
        self.visitors@.len()
    }

    /// A row without visitors.
    pub fn new() -> (r: CompositeVisitor)
        ensures
            r.len() == 0,
    {
        CompositeVisitor { visitors: Vec::new() }
    }

    /// The row with one more visitor at its end.
    pub fn with_visitor<V: DocumentVisitor + 'static>(self, visitor: V) -> (r: CompositeVisitor)
        ensures
            r.len() == self.len() + 1,
    {
        let mut visitors = self.visitors;
        let boxed: Box<dyn DocumentVisitor> = Box::new(visitor);
        let seat = Seat { visitor: boxed };
        proof {
            lemma_one_more(visitors@, seat);
        }
        visitors.push(seat);
        CompositeVisitor { visitors }
    }
}

impl Default for CompositeVisitor {
    fn default() -> (r: CompositeVisitor)
        ensures
            r.len() == 0,
    {
        CompositeVisitor::new()
    }
}

impl DocumentVisitor for CompositeVisitor {
    fn visit_paragraph(&mut self, para: &Paragraph) -> (r: VisitorAction)
        ensures
            final(self).len() == old(self).len(),
            old(self).len() == 0 ==> r is Continue,
    {
        let n = self.visitors.len();
        let mut i: usize = 0;
        while i < n
            invariant
                n == self.visitors.len(),
                n == old(self).len(),
            decreases n - i,
        {
            let action = self.visitors[i].visitor.visit_paragraph(para);
            match action {
                VisitorAction::Continue => {},
                _ => {
                    return action;
                },
            }
            i += 1;
        }
        VisitorAction::Continue
    }

    fn visit_table(&mut self, table: &Table) -> (r: VisitorAction)
        ensures
            final(self).len() == old(self).len(),
            old(self).len() == 0 ==> r is Continue,
    {
        let n = self.visitors.len();
        let mut i: usize = 0;
        while i < n
            invariant
                n == self.visitors.len(),
                n == old(self).len(),
            decreases n - i,
        {
            let action = self.visitors[i].visitor.visit_table(table);
            match action {
                VisitorAction::Continue => {},
                _ => {
                    return action;
                },
            }
            i += 1;
        }
        VisitorAction::Continue
    }

    fn visit_image(&mut self, id: &str, alt: Option<&str>) -> (r: VisitorAction)
        ensures
            final(self).len() == old(self).len(),
            old(self).len() == 0 ==> r is Continue,
    {
        let n = self.visitors.len();
        let mut i: usize = 0;
        while i < n
            invariant
                n == self.visitors.len(),
                n == old(self).len(),
            decreases n - i,
        {
            let action = self.visitors[i].visitor.visit_image(id, alt);
            match action {
                VisitorAction::Continue => {},
                _ => {
                    return action;
                },
            }
            i += 1;
        }
        VisitorAction::Continue
    }

    fn visit_heading(&mut self, text: &str, level: u8) -> (r: VisitorAction)
        ensures
            final(self).len() == old(self).len(),
            old(self).len() == 0 ==> r is Continue,
    {
        let n = self.visitors.len();
        let mut i: usize = 0;
        while i < n
            invariant
                n == self.visitors.len(),
                n == old(self).len(),
            decreases n - i,
        {
            let action = self.visitors[i].visitor.visit_heading(text, level);
            match action {
                VisitorAction::Continue => {},
                _ => {
                    return action;
                },
            }
            i += 1;
        }
        VisitorAction::Continue
    }

    fn visit_horizontal_rule(&mut self) -> (r: VisitorAction)
        ensures
            final(self).len() == old(self).len(),
            old(self).len() == 0 ==> r is Continue,
    {
        let n = self.visitors.len();
        let mut i: usize = 0;
        while i < n
            invariant
                n == self.visitors.len(),
                n == old(self).len(),
            decreases n - i,
        {
            let action = self.visitors[i].visitor.visit_horizontal_rule();
            match action {
                VisitorAction::Continue => {},
                _ => {
                    return action;
                },
            }
            i += 1;
        }
        VisitorAction::Continue
    }

    fn visit_list_item(&mut self, para: &Paragraph, level: u8, ordered: bool) -> (r: VisitorAction)
        ensures
            final(self).len() == old(self).len(),
            old(self).len() == 0 ==> r is Continue,
    {
        let n = self.visitors.len();
        let mut i: usize = 0;
        while i < n
            invariant
                n == self.visitors.len(),
                n == old(self).len(),
            decreases n - i,
        {
            let action = self.visitors[i].visitor.visit_list_item(para, level, ordered);
            match action {
                VisitorAction::Continue => {},
                _ => {
                    return action;
                },
            }
            i += 1;
        }
        VisitorAction::Continue
    }

    fn on_page_start(&mut self, page_number: u32)
        ensures
            final(self).len() == old(self).len(),
    {
        let n = self.visitors.len();
        let mut i: usize = 0;
        while i < n
            invariant
                n == self.visitors.len(),
                n == old(self).len(),
            decreases n - i,
        {
            self.visitors[i].visitor.on_page_start(page_number);
            i += 1;
        }
    }

    fn on_page_end(&mut self, page_number: u32)
        ensures
            final(self).len() == old(self).len(),
    {
        let n = self.visitors.len();
        let mut i: usize = 0;
        while i < n
            invariant
                n == self.visitors.len(),
                n == old(self).len(),
            decreases n - i,
        {
            self.visitors[i].visitor.on_page_end(page_number);
            i += 1;
        }
    }
}

} // verus!
