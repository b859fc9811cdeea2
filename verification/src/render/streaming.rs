//! Rendering a document event by event, so that the output need not be
//! held as a whole.

use crate::model::document::{frontmatter_text, Document, Metadata};
use crate::model::page::{Block, Page};
use crate::render::markdown::{
    image_markdown, paragraph_markdown, render_paragraph, render_table_markdown, table_markdown,
};
use crate::render::options::{selects, RenderOptions};
use crate::render::result::ExtractionStats;
use crate::text::{append_str, trim};
use vstd::prelude::*;

verus! {

/// An event of a render.
#[derive(Debug, Clone)]
pub enum RenderEvent {
    /// The document starts.
    DocumentStart {
        /// The metadata of the document.
        metadata: Metadata,
        /// The number of pages of the document.
        page_count: u32,
    },
    /// A page starts.
    PageStart {
        /// The number of the page, from 1.
        number: u32,
    },
    /// A block of rendered content.
    Block(String),
    /// A page ends.
    PageEnd {
        /// The number of the page, from 1.
        number: u32,
    },
    /// The document ends.
    DocumentEnd,
    /// The YAML frontmatter.
    Frontmatter(String),
}

impl RenderEvent {
    /// Tests whether the event carries content: a block or frontmatter.
    pub fn has_content(&self) -> (r: bool)
        ensures
            r == (*self is Block || *self is Frontmatter),
    {
        match self {
            RenderEvent::Block(_) => true,
            RenderEvent::Frontmatter(_) => true,
            _ => false,
        }
    }

    /// The content of a block or of frontmatter.
    pub fn content(&self) -> (r: Option<&str>)
        ensures
            match *self {
                RenderEvent::Block(s) => r matches Some(t) && t@ == s@,
                RenderEvent::Frontmatter(s) => r matches Some(t) && t@ == s@,
                _ => r is None,
            },
    {
        match self {
            RenderEvent::Block(s) => Some(s.as_str()),
            RenderEvent::Frontmatter(s) => Some(s.as_str()),
            _ => None,
        }
    }

    /// Tests whether the event is the start or the end of the document.
    pub fn is_document_boundary(&self) -> (r: bool)
        ensures
            r == (*self is DocumentStart || *self is DocumentEnd),
    {
        match self {
            RenderEvent::DocumentStart { .. } => true,
            RenderEvent::DocumentEnd => true,
            _ => false,
        }
    }

    /// Tests whether the event is the start or the end of a page.
    pub fn is_page_boundary(&self) -> (r: bool)
        ensures
            r == (*self is PageStart || *self is PageEnd),
    {
        match self {
            RenderEvent::PageStart { .. } => true,
            RenderEvent::PageEnd { .. } => true,
            _ => false,
        }
    }
}

/// Where a streaming render stands.
#[derive(Debug, Clone, Copy, PartialEq, Eq, Structural)]
pub enum StreamState {
    /// Nothing was emitted yet.
    Initial,
    /// The frontmatter was emitted.
    Frontmatter,
    /// The start of the document was emitted.
    DocumentStarted,
    /// The blocks of a page are being emitted.
    InPage {
        /// The position of the page.
        page_index: usize,
        /// The position of the next block.
        block_index: usize,
    },
    /// A page has ended; the search for the next goes on from `next_page`.
    BetweenPages {
        /// The position from which the next page is looked for.
        next_page: usize,
    },
    /// All pages were emitted.
    PagesComplete,
    /// The end of the document was emitted.
    Done,
}

/// What an event says, apart from the metadata that the start of the
/// document carries.
pub enum Emitted {
    DocumentStart { page_count: u32 },
    PageStart { number: u32 },
    Block(Seq<char>),
    PageEnd { number: u32 },
    DocumentEnd,
    Frontmatter(Seq<char>),
}

/// A block as the streaming render emits it: as the Markdown render does,
/// but a table always as a Markdown table, and a page or section break as
/// a blank line.
pub open spec fn streamed_block(o: RenderOptions, b: Block) -> Seq<char> {
    match b {
        Block::Paragraph(p) => paragraph_markdown(o, p),
        Block::Table(t) => if t.rows@.len() == 0 {
            Seq::empty()
        } else {
            table_markdown(t)
        },
        Block::Image { resource_id, alt_text, .. } => image_markdown(o, resource_id@, alt_text)
            + "\n\n"@,
        Block::HorizontalRule => "\n---\n\n"@,
        Block::PageBreak | Block::SectionBreak => "\n\n"@,
        Block::Raw { content } => content@ + "\n\n"@,
    }
}

/// The position of the first selected page at or after `from`, or the number
/// of pages where there is none.
pub open spec fn next_selected(pages: Seq<Page>, o: RenderOptions, from: int) -> int
    decreases pages.len() - from,
{
    if from >= pages.len() {
        pages.len() as int
    } else if from >= 0 && selects(o.page_selection, pages[from].number) {
        from
    } else {
        next_selected(pages, o, from + 1)
    }
}

/// The number of pages as far as 32 bits can count.
pub open spec fn pages_counted(doc: Document) -> u32 {
    if doc.pages@.len() > u32::MAX {
        u32::MAX
    } else {
        doc.pages@.len() as u32
    }
}

/// The state after the search for a page from `from`, and the event that
/// goes with it.
pub open spec fn page_entered(doc: Document, o: RenderOptions, from: int) -> (
    StreamState,
    Option<Emitted>,
) {
    let p = next_selected(doc.pages@, o, from);
    if p < doc.pages@.len() {
        (
            StreamState::InPage { page_index: p as usize, block_index: 0 },
            Some(Emitted::PageStart { number: doc.pages@[p].number }),
        )
    } else {
        (StreamState::PagesComplete, None)
    }
}

/// One step of the render: the next state, and the event emitted, if the
/// step emits one.
pub open spec fn step(doc: Document, o: RenderOptions, st: StreamState) -> (
    StreamState,
    Option<Emitted>,
) {
    match st {
        StreamState::Initial => if o.include_frontmatter {
            (StreamState::Frontmatter, Some(Emitted::Frontmatter(frontmatter_text(doc.metadata))))
        } else {
            (
                StreamState::DocumentStarted,
                Some(Emitted::DocumentStart { page_count: pages_counted(doc) }),
            )
        },
        StreamState::Frontmatter => (
            StreamState::DocumentStarted,
            Some(Emitted::DocumentStart { page_count: pages_counted(doc) }),
        ),
        StreamState::DocumentStarted => page_entered(doc, o, 0),
        StreamState::InPage { page_index, block_index } => if page_index >= doc.pages@.len() {
            (StreamState::PagesComplete, None)
        } else {
            let page = doc.pages@[page_index as int];
            if block_index < page.elements@.len() {
                let content = streamed_block(o, page.elements@[block_index as int]);
                (
                    StreamState::InPage { page_index, block_index: (block_index + 1) as usize },
                    if content.len() == 0 {
                        None
                    } else {
                        Some(Emitted::Block(content))
                    },
                )
            } else {
                (
                    StreamState::BetweenPages { next_page: (page_index + 1) as usize },
                    Some(Emitted::PageEnd { number: page.number }),
                )
            }
        },
        StreamState::BetweenPages { next_page } => page_entered(doc, o, next_page as int),
        StreamState::PagesComplete => (StreamState::Done, Some(Emitted::DocumentEnd)),
        StreamState::Done => (StreamState::Done, None),
    }
}

/// How far a state is from the end: the phase, the pages left, whether a
/// page is still to be entered, and the blocks left on the page.
pub open spec fn phase(st: StreamState) -> nat {
    match st {
        StreamState::Initial => 5,
        StreamState::Frontmatter => 4,
        StreamState::DocumentStarted => 3,
        StreamState::InPage { .. } | StreamState::BetweenPages { .. } => 2,
        StreamState::PagesComplete => 1,
        StreamState::Done => 0,
    }
}

/// The pages left from a state on.
pub open spec fn pages_left(doc: Document, st: StreamState) -> nat {
    match st {
        StreamState::InPage { page_index, .. } => if page_index < doc.pages@.len() {
            (doc.pages@.len() - page_index) as nat
        } else {
            0
        },
        StreamState::BetweenPages { next_page } => if next_page < doc.pages@.len() {
            (doc.pages@.len() - next_page) as nat
        } else {
            0
        },
        _ => 0,
    }
}

/// 1 between pages, 0 otherwise.
pub open spec fn entering(st: StreamState) -> nat {
    if st is BetweenPages {
        1
    } else {
        0
    }
}

/// The blocks left on the page of a state.
pub open spec fn blocks_left(doc: Document, st: StreamState) -> nat {
    match st {
        StreamState::InPage { page_index, block_index } => if page_index < doc.pages@.len()
            && block_index <= doc.pages@[page_index as int].elements@.len() {
            (doc.pages@[page_index as int].elements@.len() - block_index + 1) as nat
        } else {
            0
        },
        _ => 0,
    }
}

/// The search for a page ends at or after where it starts, and within the
/// pages.
pub proof fn lemma_next_selected_bounds(pages: Seq<Page>, o: RenderOptions, from: int)
    requires
        0 <= from,
    ensures
        from <= next_selected(pages, o, from) || next_selected(pages, o, from) == pages.len(),
        next_selected(pages, o, from) <= pages.len(),
        next_selected(pages, o, from) < pages.len() ==> selects(
            o.page_selection,
            pages[next_selected(pages, o, from)].number,
        ),
    decreases pages.len() - from,
{
    if from < pages.len() && !selects(o.page_selection, pages[from].number) {
        lemma_next_selected_bounds(pages, o, from + 1);
    }
}

/// The state `next` is closer to the end than the state `st`.
pub open spec fn closer(doc: Document, next: StreamState, st: StreamState) -> bool {
    phase(next) < phase(st) || (phase(next) == phase(st) && (pages_left(doc, next) < pages_left(
        doc,
        st,
    ) || (pages_left(doc, next) == pages_left(doc, st) && (entering(next) < entering(st) || (
    entering(next) == entering(st) && blocks_left(doc, next) < blocks_left(doc, st))))))
}

/// Every step before the end brings the render closer to the end.
pub proof fn lemma_step_progress(doc: Document, o: RenderOptions, st: StreamState)
    requires
        !(st is Done),
    ensures
        closer(doc, step(doc, o, st).0, st),
{
    assert(doc.pages@.len() == doc.pages.len());
    lemma_next_selected_bounds(doc.pages@, o, 0);
    match st {
        StreamState::BetweenPages { next_page } => {
            lemma_next_selected_bounds(doc.pages@, o, next_page as int);
        },
        StreamState::InPage { page_index, block_index } => {
            if page_index < doc.pages@.len() {
                let page = doc.pages@[page_index as int];
                assert(page.elements@.len() == page.elements.len());
            }
        },
        _ => {},
    }
}

/// The state and the event of the next pull: the steps are taken until one
/// emits an event or the render is done.
pub open spec fn pulled(doc: Document, o: RenderOptions, st: StreamState) -> (
    StreamState,
    Option<Emitted>,
)
    decreases phase(st), pages_left(doc, st), entering(st), blocks_left(doc, st),
{
    let (next, event) = step(doc, o, st);
    if event is Some || st is Done {
        (next, event)
    } else if closer(doc, next, st) {
        pulled(doc, o, next)
    } else {
        (next, event)
    }
}

/// Once the render is done it stays done and emits nothing.
pub proof fn lemma_done_is_final(doc: Document, o: RenderOptions)
    ensures
        pulled(doc, o, StreamState::Done) == (StreamState::Done, None::<Emitted>),
{
}

/// The page entered last, after an event: the page of a page start, and
/// the page before otherwise.
pub open spec fn entered_after(before: u32, event: Option<Emitted>) -> u32 {
    match event {
        Some(Emitted::PageStart { number }) => number,
        _ => before,
    }
}

/// The event is what was to be emitted.
pub open spec fn event_matches(e: Option<RenderEvent>, expected: Option<Emitted>, doc: Document)
    -> bool {
    match expected {
        None => e is None,
        Some(Emitted::DocumentStart { page_count }) => e matches Some(
            RenderEvent::DocumentStart { metadata, page_count: n },
        ) && n == page_count && metadata == doc.metadata,
        Some(Emitted::PageStart { number }) => e matches Some(RenderEvent::PageStart { number: n })
            && n == number,
        Some(Emitted::Block(s)) => e matches Some(RenderEvent::Block(t)) && t@ == s,
        Some(Emitted::PageEnd { number }) => e matches Some(RenderEvent::PageEnd { number: n })
            && n == number,
        Some(Emitted::DocumentEnd) => e matches Some(RenderEvent::DocumentEnd),
        Some(Emitted::Frontmatter(s)) => e matches Some(RenderEvent::Frontmatter(t)) && t@ == s,
    }
}

/// Renders a document event by event.
#[derive(Debug)]
pub struct StreamingRenderer<'a> {
    doc: &'a Document,
    options: RenderOptions,
    state: StreamState,
    current_page_number: u32,
}

impl<'a> StreamingRenderer<'a> {
    /// A renderer at the start of the document.
    pub fn new(doc: &'a Document, options: RenderOptions) -> (r: StreamingRenderer<'a>)
        ensures
            r.document() == *doc,
            r.options() == options,
            r.state() == StreamState::Initial,
            r.entered() == 0,
    {
        StreamingRenderer { doc, options, state: StreamState::Initial, current_page_number: 0 }
    }

    /// The document that is rendered.
    pub closed spec fn document(&self) -> Document {
        *self.doc
    }

    /// The options of the render.
    pub closed spec fn options(&self) -> RenderOptions {
        self.options
    }

    /// Where the render stands.
    pub closed spec fn state(&self) -> StreamState {
        self.state
    }

    /// The number of the page entered last; 0 before the first.
    pub closed spec fn entered(&self) -> u32 {
        self.current_page_number
    }

    /// The number of pages of the document, as far as 32 bits can count.
    pub fn page_count(&self) -> (r: u32)
        ensures
            r == pages_counted(self.document()),
    {
        self.doc.page_count()
    }

    /// Tests whether the render is done.
    pub fn is_done(&self) -> (r: bool)
        ensures
            r == (self.state() is Done),
    {
        match self.state {
            StreamState::Done => true,
            _ => false,
        }
    }

    /// The number of the page entered last; 0 before the first.
    pub fn current_page(&self) -> (r: u32)
        ensures
            r == self.entered(),
    {
        self.current_page_number
    }

    /// Finds the first selected page at or after `start`.
    pub fn find_next_page(&self, start: usize) -> (r: Option<usize>)
        ensures
            match r {
                Some(i) => i == next_selected(self.document().pages@, self.options(), start as int)
                    && i < self.document().pages@.len(),
                None => next_selected(self.document().pages@, self.options(), start as int)
                    == self.document().pages@.len(),
            },
    {
        let n = self.doc.pages.len();
        let mut i: usize = start;
        while i < n
            invariant
                start <= i,
                n == self.doc.pages.len(),
                next_selected(self.doc.pages@, self.options, start as int) == next_selected(
                    self.doc.pages@,
                    self.options,
                    i as int,
                ),
            decreases n - i,
        {
            if self.options.page_selection.includes(self.doc.pages[i].number) {
                return Some(i);
            }
            i += 1;
        }
        None
    }

    /// Renders one block; see [`streamed_block`].
    pub fn render_block(&self, block: &Block) -> (r: String)
        ensures
            r@ == streamed_block(self.options(), *block),
    {
        let mut out = String::new();
        match block {
            Block::Paragraph(p) => {
                let mut unused = ExtractionStats::new();
                render_paragraph(&mut out, &mut unused, &self.options, false, p);
            },
            Block::Table(t) => {
                if !t.is_empty() {
                    render_table_markdown(&mut out, t);
                }
            },
            Block::Image { resource_id, alt_text, .. } => {
                append_str(&mut out, "![");
                match alt_text {
                    Some(a) => {
                        append_str(&mut out, a.as_str());
                    },
                    None => {},
                }
                append_str(&mut out, "](");
                append_str(&mut out, self.options.image_path_prefix.as_str());
                append_str(&mut out, resource_id.as_str());
                append_str(&mut out, ")");
                append_str(&mut out, "\n\n");
                assert(out@ =~= image_markdown(self.options, resource_id@, *alt_text) + "\n\n"@);
            },
            Block::HorizontalRule => {
                append_str(&mut out, "\n---\n\n");
            },
            Block::PageBreak => {
                append_str(&mut out, "\n\n");
            },
            Block::SectionBreak => {
                append_str(&mut out, "\n\n");
            },
            Block::Raw { content } => {
                append_str(&mut out, content.as_str());
                append_str(&mut out, "\n\n");
            },
        }
        out
    }

    fn enter_page(&mut self, from: usize) -> (r: Option<RenderEvent>)
        ensures
            final(self).document() == old(self).document(),
            final(self).options() == old(self).options(),
            (final(self).state(), r) matches (st, e) && st == page_entered(
                old(self).document(),
                old(self).options(),
                from as int,
            ).0 && event_matches(
                e,
                page_entered(old(self).document(), old(self).options(), from as int).1,
                old(self).document(),
            ),
            final(self).entered() == entered_after(
                old(self).entered(),
                page_entered(old(self).document(), old(self).options(), from as int).1,
            ),
    {
        match self.find_next_page(from) {
            Some(p) => {
                let number = self.doc.pages[p].number;
                self.current_page_number = number;
                self.state = StreamState::InPage { page_index: p, block_index: 0 };
                Some(RenderEvent::PageStart { number })
            },
            None => {
                self.state = StreamState::PagesComplete;
                None
            },
        }
    }

    fn advance(&mut self) -> (r: Option<RenderEvent>)
        ensures
            final(self).document() == old(self).document(),
            final(self).options() == old(self).options(),
            final(self).state() == step(
                old(self).document(),
                old(self).options(),
                old(self).state(),
            ).0,
            event_matches(
                r,
                step(old(self).document(), old(self).options(), old(self).state()).1,
                old(self).document(),
            ),
            final(self).entered() == entered_after(
                old(self).entered(),
                step(old(self).document(), old(self).options(), old(self).state()).1,
            ),
    {
        match self.state {
            StreamState::Initial => {
                if self.options.include_frontmatter {
                    self.state = StreamState::Frontmatter;
                    Some(RenderEvent::Frontmatter(self.doc.metadata.to_yaml_frontmatter()))
                } else {
                    self.state = StreamState::DocumentStarted;
                    Some(
                        RenderEvent::DocumentStart {
                            metadata: self.doc.metadata.duplicate(),
                            page_count: self.doc.page_count(),
                        },
                    )
                }
            },
            StreamState::Frontmatter => {
                self.state = StreamState::DocumentStarted;
                Some(
                    RenderEvent::DocumentStart {
                        metadata: self.doc.metadata.duplicate(),
                        page_count: self.doc.page_count(),
                    },
                )
            },
            StreamState::DocumentStarted => self.enter_page(0),
            StreamState::InPage { page_index, block_index } => {
                if page_index >= self.doc.pages.len() {
                    self.state = StreamState::PagesComplete;
                    return None;
                }
                let page = &self.doc.pages[page_index];
                if block_index < page.elements.len() {
                    let content = self.render_block(&page.elements[block_index]);
                    self.state = StreamState::InPage { page_index, block_index: block_index + 1 };
                    if content.as_str().unicode_len() == 0 {
                        None
                    } else {
                        Some(RenderEvent::Block(content))
                    }
                } else {
                    let next_page = if page_index < usize::MAX {
                        page_index + 1
                    } else {
                        page_index
                    };
                    self.state = StreamState::BetweenPages { next_page };
                    Some(RenderEvent::PageEnd { number: page.number })
                }
            },
            StreamState::BetweenPages { next_page } => self.enter_page(next_page),
            StreamState::PagesComplete => {
                self.state = StreamState::Done;
                Some(RenderEvent::DocumentEnd)
            },
            StreamState::Done => None,
        }
    }

    /// Pulls the next event; nothing once the render is done. See
    /// [`pulled`].
    pub fn next(&mut self) -> (r: Option<RenderEvent>)
        ensures
            final(self).document() == old(self).document(),
            final(self).options() == old(self).options(),
            final(self).state() == pulled(
                old(self).document(),
                old(self).options(),
                old(self).state(),
            ).0,
            event_matches(
                r,
                pulled(old(self).document(), old(self).options(), old(self).state()).1,
                old(self).document(),
            ),
            final(self).entered() == entered_after(
                old(self).entered(),
                pulled(old(self).document(), old(self).options(), old(self).state()).1,
            ),
    {
        loop
            invariant
                self.document() == old(self).document(),
                self.options() == old(self).options(),
                self.entered() == old(self).entered(),
                pulled(old(self).document(), old(self).options(), old(self).state()) == pulled(
                    self.document(),
                    self.options(),
                    self.state(),
                ),
            decreases
                    phase(self.state()),
                    pages_left(self.document(), self.state()),
                    entering(self.state()),
                    blocks_left(self.document(), self.state()),
        {
            let ghost before = self.state;
            let done = self.is_done();
            proof {
                if !done {
                    lemma_step_progress(*self.doc, self.options, before);
                }
            }
            let event = self.advance();
            if event.is_some() || done {
                return event;
            }
        }
    }
}

/// The content of the events from a state on, one after the other.
pub open spec fn remaining_content(doc: Document, o: RenderOptions, st: StreamState) -> Seq<char>
    decreases phase(st), pages_left(doc, st), entering(st), blocks_left(doc, st),
{
    let (next, event) = step(doc, o, st);
    let own = match event {
        Some(Emitted::Block(s)) => s,
        Some(Emitted::Frontmatter(s)) => s,
        _ => Seq::empty(),
    };
    if st is Done {
        Seq::empty()
    } else if closer(doc, next, st) {
        own + remaining_content(doc, o, next)
    } else {
        own
    }
}

fn drain(renderer: &mut StreamingRenderer<'_>) -> (r: String)
    ensures
        r@ == trim(
            remaining_content(old(renderer).document(), old(renderer).options(), old(renderer).state()),
        ),
{
    let mut out = String::new();
    loop
        invariant
            renderer.document() == old(renderer).document(),
            renderer.options() == old(renderer).options(),
            out@ + remaining_content(renderer.document(), renderer.options(), renderer.state())
                == remaining_content(
                old(renderer).document(),
                old(renderer).options(),
                old(renderer).state(),
            ),
        decreases
                phase(renderer.state()),
                pages_left(renderer.document(), renderer.state()),
                entering(renderer.state()),
                blocks_left(renderer.document(), renderer.state()),
    {
        let ghost doc = renderer.document();
        let ghost o = renderer.options();
        let ghost before = renderer.state();
        let ghost so_far = out@;
        if renderer.is_done() {
            assert(out@ + Seq::<char>::empty() =~= out@);
            return crate::text::trim_str(out.as_str());
        }
        proof {
            lemma_step_progress(doc, o, before);
        }
        let event = renderer.advance();
        match event {
            Some(e) => {
                match e.content() {
                    Some(c) => {
                        append_str(&mut out, c);
                    },
                    None => {},
                }
            },
            None => {},
        }
        proof {
            let (next, ev) = step(doc, o, before);
            let own = match ev {
                Some(Emitted::Block(s)) => s,
                Some(Emitted::Frontmatter(s)) => s,
                _ => Seq::<char>::empty(),
            };
            assert(out@ =~= so_far + own);
            assert(so_far + (own + remaining_content(doc, o, next)) =~= (so_far + own)
                + remaining_content(doc, o, next));
        }
    }
}

/// The events from a state on, one after the other.
pub open spec fn remaining_events(doc: Document, o: RenderOptions, st: StreamState) -> Seq<Emitted>
    decreases phase(st), pages_left(doc, st), entering(st), blocks_left(doc, st),
{
    let (next, event) = step(doc, o, st);
    let own = match event {
        Some(e) => seq![e],
        None => Seq::empty(),
    };
    if st is Done {
        Seq::empty()
    } else if closer(doc, next, st) {
        own + remaining_events(doc, o, next)
    } else {
        own
    }
}

/// The events are those that were to be emitted, one for one.
pub open spec fn events_match(events: Seq<RenderEvent>, expected: Seq<Emitted>, doc: Document)
    -> bool {
    events.len() == expected.len() && forall|i: int|
        0 <= i < events.len() ==> event_matches(Some(#[trigger] events[i]), Some(expected[i]), doc)
}

fn drain_events(renderer: &mut StreamingRenderer<'_>) -> (r: Vec<RenderEvent>)
    ensures
        events_match(
            r@,
            remaining_events(
                old(renderer).document(),
                old(renderer).options(),
                old(renderer).state(),
            ),
            old(renderer).document(),
        ),
{
    let mut out: Vec<RenderEvent> = Vec::new();
    let ghost mut done: Seq<Emitted> = Seq::empty();
    proof {
        assert(done + remaining_events(
            renderer.document(),
            renderer.options(),
            renderer.state(),
        ) =~= remaining_events(renderer.document(), renderer.options(), renderer.state()));
    }
    loop
        invariant
            renderer.document() == old(renderer).document(),
            renderer.options() == old(renderer).options(),
            events_match(out@, done, renderer.document()),
            done + remaining_events(renderer.document(), renderer.options(), renderer.state())
                == remaining_events(
                old(renderer).document(),
                old(renderer).options(),
                old(renderer).state(),
            ),
        decreases
                phase(renderer.state()),
                pages_left(renderer.document(), renderer.state()),
                entering(renderer.state()),
                blocks_left(renderer.document(), renderer.state()),
    {
        let ghost doc = renderer.document();
        let ghost o = renderer.options();
        let ghost before = renderer.state();
        if renderer.is_done() {
            assert(done + Seq::<Emitted>::empty() =~= done);
            return out;
        }
        proof {
            lemma_step_progress(doc, o, before);
        }
        let ghost held = out@;
        let event = renderer.advance();
        match event {
            Some(e) => {
                out.push(e);
                proof {
                    let (next, ev) = step(doc, o, before);
                    let emitted = ev->Some_0;
                    assert(done.push(emitted) + remaining_events(doc, o, next) =~= done + (
                    seq![emitted] + remaining_events(doc, o, next)));
                    assert forall|i: int| 0 <= i < out@.len() implies event_matches(
                        Some(#[trigger] out@[i]),
                        Some(done.push(emitted)[i]),
                        doc,
                    ) by {
                        if i < held.len() {
                            assert(out@[i] == held[i]);
                        }
                    }
                    done = done.push(emitted);
                }
            },
            None => {
                proof {
                    let (next, ev) = step(doc, o, before);
                    assert(done + (Seq::<Emitted>::empty() + remaining_events(doc, o, next))
                        =~= done + remaining_events(doc, o, next));
                }
            },
        }
    }
}

impl<'a> StreamingRenderer<'a> {
    /// Pulls all events that are left.
    pub fn collect(self) -> (r: Vec<RenderEvent>)
        ensures
            events_match(
                r@,
                remaining_events(self.document(), self.options(), self.state()),
                self.document(),
            ),
    {
        let mut rest = self;
        drain_events(&mut rest)
    }
}

/// Pulls all events and joins their content; the result is trimmed.
pub fn collect_content(renderer: StreamingRenderer<'_>) -> (r: String)
    ensures
        r@ == trim(remaining_content(renderer.document(), renderer.options(), renderer.state())),
{
    let mut rest = renderer;
    drain(&mut rest)
}

} // verus!
