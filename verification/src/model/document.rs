//! The document: metadata, pages, resources and outline.

use crate::model::page::{joined_by_blank_lines, page_text, append_separated, Page};
use crate::model::resource::Resource;
use crate::text::{
    append_chars, append_decimal, append_str, chars1, chars2, chars3, decimal, replace_all,
    replace_chars, same_str, to_chars,
};
use vstd::prelude::*;

verus! {

/// A point in time, in UTC, to the second.
#[derive(Debug, Clone, Copy, PartialEq, Eq, Structural)]
pub struct Timestamp {
    pub year: i32,
    pub month: u32,
    pub day: u32,
    pub hour: u32,
    pub minute: u32,
    pub second: u32,
}

/// What chrono makes of a date and time in UTC: its RFC 3339 text as
/// `DateTime::to_rfc3339` writes it, or nothing where `NaiveDate::from_ymd_opt`
/// or `NaiveDate::and_hms_opt` finds that the date or the time does not exist.
pub uninterp spec fn rfc3339_form(
    year: int,
    month: int,
    day: int,
    hour: int,
    minute: int,
    second: int,
) -> Option<Seq<char>>;

/// `NaiveDate::from_ymd_opt`, `NaiveDate::and_hms_opt` and
/// `DateTime::<Utc>::to_rfc3339` of chrono. Not proved: that the result is
/// the text that [`rfc3339_form`] names for the six numbers, and nothing
/// exactly where that is nothing.
#[verifier::external_body]
fn rfc3339(t: &Timestamp) -> (r: Option<String>)
    ensures
        match r {
            Some(s) => rfc3339_form(
                t.year as int,
                t.month as int,
                t.day as int,
                t.hour as int,
                t.minute as int,
                t.second as int,
            ) == Some(s@),
            None => rfc3339_form(
                t.year as int,
                t.month as int,
                t.day as int,
                t.hour as int,
                t.minute as int,
                t.second as int,
            ) is None,
        },
{
    let date = chrono::NaiveDate::from_ymd_opt(t.year, t.month, t.day)?;
    let time = date.and_hms_opt(t.hour, t.minute, t.second)?;
    Some(chrono::DateTime::<chrono::Utc>::from_naive_utc_and_offset(time, chrono::Utc).to_rfc3339())
}

/// The RFC 3339 text of the timestamp, where its date and time exist.
pub open spec fn timestamp_text(t: Timestamp) -> Option<Seq<char>> {
    rfc3339_form(
        t.year as int,
        t.month as int,
        t.day as int,
        t.hour as int,
        t.minute as int,
        t.second as int,
    )
}

impl Timestamp {
    /// Tests whether the date and the time exist.
    pub fn is_valid(&self) -> (r: bool)
        ensures
            r == timestamp_text(*self) is Some,
    {
        rfc3339(self).is_some()
    }

    /// The timestamp as RFC 3339 text, such as `2024-01-15T10:30:45+00:00`;
    /// nothing where the date or the time does not exist.
    pub fn to_rfc3339(&self) -> (r: Option<String>)
        ensures
            match r {
                Some(s) => timestamp_text(*self) == Some(s@),
                None => timestamp_text(*self) is None,
            },
    {
        rfc3339(self)
    }
}

/// What is known about the document as a whole.
#[derive(Debug, Clone)]
pub struct Metadata {
    pub title: Option<String>,
    pub author: Option<String>,
    pub subject: Option<String>,
    pub keywords: Option<String>,
    /// The application in which the document was written.
    pub creator: Option<String>,
    /// The application that produced the PDF.
    pub producer: Option<String>,
    /// When the document was created.
    pub created: Option<Timestamp>,
    /// When the document was last modified.
    pub modified: Option<Timestamp>,
    /// The PDF version, such as `1.7`.
    pub pdf_version: String,
    /// The number of pages of the container.
    pub page_count: u32,
    /// Whether the container is encrypted.
    pub encrypted: bool,
    /// Whether the document is tagged.
    pub tagged: bool,
}

/// Nothing but the version and the page count is known.
pub open spec fn is_bare_metadata(m: Metadata) -> bool {
    m.title is None && m.author is None && m.subject is None && m.keywords is None && m.creator
        is None && m.producer is None && m.created is None && m.modified is None && !m.encrypted
        && !m.tagged
}

/// A text with backslashes, double quotes and newlines escaped for a
/// double-quoted YAML string.
pub open spec fn yaml_escaped(s: Seq<char>) -> Seq<char> {
    replace_all(
        replace_all(replace_all(s, seq!['\\'], seq!['\\', '\\']), seq!['"'], seq!['\\', '"']),
        seq!['\n'],
        seq!['\\', 'n'],
    )
}

/// A frontmatter line for a text field: the key, the escaped value in double
/// quotes, a newline; nothing for a field that is not set.
pub open spec fn yaml_text_line(key: Seq<char>, value: Option<String>) -> Seq<char> {
    match value {
        Some(v) => key + seq![':', ' ', '"'] + yaml_escaped(v@) + seq!['"', '\n'],
        None => Seq::empty(),
    }
}

/// A frontmatter line for a date: the key, the RFC 3339 text, a newline;
/// nothing for a date that is not set or does not exist.
pub open spec fn yaml_date_line(key: Seq<char>, value: Option<Timestamp>) -> Seq<char> {
    match value {
        Some(t) => match timestamp_text(t) {
            Some(s) => key + seq![':', ' '] + s + seq!['\n'],
            None => Seq::empty(),
        },
        None => Seq::empty(),
    }
}

/// The YAML frontmatter block for the metadata: between two lines `---`, a
/// line for each field that is set, then the version and the page count.
pub open spec fn frontmatter_text(m: Metadata) -> Seq<char> {
    "---\n"@ + yaml_text_line("title"@, m.title) + yaml_text_line("author"@, m.author)
        + yaml_text_line("subject"@, m.subject) + yaml_text_line("keywords"@, m.keywords)
        + yaml_text_line("creator"@, m.creator) + yaml_text_line("producer"@, m.producer)
        + yaml_date_line("created"@, m.created) + yaml_date_line("modified"@, m.modified)
        + "pdf_version: \""@ + m.pdf_version@ + "\"\n"@ + "pages: "@ + decimal(
        m.page_count as nat,
    ) + "\n---\n"@
}

/// Escapes a text for a double-quoted YAML string.
pub fn escape_yaml(s: &str) -> (r: Vec<char>)
    ensures
        r@ == yaml_escaped(s@),
{
    let v = to_chars(s);
    let a = replace_chars(&v, &chars1('\\'), &chars2('\\', '\\'));
    let b = replace_chars(&a, &chars1('"'), &chars2('\\', '"'));
    replace_chars(&b, &chars1('\n'), &chars2('\\', 'n'))
}

fn append_text_line(out: &mut String, key: &str, value: &Option<String>)
    ensures
        final(out)@ == old(out)@ + yaml_text_line(key@, *value),
{
    match value {
        Some(v) => {
            append_str(out, key);
            append_chars(out, &chars3(':', ' ', '"'));
            let e = escape_yaml(v.as_str());
            append_chars(out, &e);
            append_chars(out, &chars2('"', '\n'));
            assert(out@ =~= old(out)@ + (key@ + seq![':', ' ', '"'] + yaml_escaped(v@) + seq![
                '"',
                '\n',
            ]));
        },
        None => {
            assert(out@ =~= old(out)@ + Seq::<char>::empty());
        },
    }
}

fn append_date_line(out: &mut String, key: &str, value: &Option<Timestamp>)
    ensures
        final(out)@ == old(out)@ + yaml_date_line(key@, *value),
{
    match value {
        Some(t) => {
            match rfc3339(t) {
                Some(s) => {
                    append_str(out, key);
                    append_chars(out, &chars2(':', ' '));
                    append_str(out, s.as_str());
                    append_chars(out, &chars1('\n'));
                    assert(out@ =~= old(out)@ + (key@ + seq![':', ' '] + s@ + seq!['\n']));
                },
                None => {
                    assert(out@ =~= old(out)@ + Seq::<char>::empty());
                },
            }
        },
        None => {
            assert(out@ =~= old(out)@ + Seq::<char>::empty());
        },
    }
}

impl Default for Metadata {
    fn default() -> (r: Metadata)
        ensures
            is_bare_metadata(r),
            r.pdf_version@.len() == 0,
            r.page_count == 0,
    {
        Metadata {
            title: None,
            author: None,
            subject: None,
            keywords: None,
            creator: None,
            producer: None,
            created: None,
            modified: None,
            pdf_version: String::new(),
            page_count: 0,
            encrypted: false,
            tagged: false,
        }
    }
}

impl Metadata {
    /// Metadata that knows the PDF version and nothing else.
    pub fn with_version(version: &str) -> (r: Metadata)
        ensures
            is_bare_metadata(r),
            r.pdf_version@ == version@,
            r.page_count == 0,
    {
        let mut m = Metadata::default();
        m.pdf_version = version.to_owned();
        m
    }

    /// The metadata as a YAML frontmatter block; see [`frontmatter_text`].
    pub fn to_yaml_frontmatter(&self) -> (r: String)
        ensures
            r@ == frontmatter_text(*self),
    {
        let mut out = String::new();
        append_str(&mut out, "---\n");
        append_text_line(&mut out, "title", &self.title);
        append_text_line(&mut out, "author", &self.author);
        append_text_line(&mut out, "subject", &self.subject);
        append_text_line(&mut out, "keywords", &self.keywords);
        append_text_line(&mut out, "creator", &self.creator);
        append_text_line(&mut out, "producer", &self.producer);
        append_date_line(&mut out, "created", &self.created);
        append_date_line(&mut out, "modified", &self.modified);
        append_str(&mut out, "pdf_version: \"");
        append_str(&mut out, self.pdf_version.as_str());
        append_str(&mut out, "\"\n");
        append_str(&mut out, "pages: ");
        append_decimal(&mut out, self.page_count as u64);
        append_str(&mut out, "\n---\n");
        assert(out@ =~= frontmatter_text(*self));
        out
    }

    /// A copy of the metadata.
    pub fn duplicate(&self) -> (r: Metadata)
        ensures
            r == *self,
    {
        Metadata {
            title: self.title.clone(),
            author: self.author.clone(),
            subject: self.subject.clone(),
            keywords: self.keywords.clone(),
            creator: self.creator.clone(),
            producer: self.producer.clone(),
            created: self.created,
            modified: self.modified,
            pdf_version: self.pdf_version.clone(),
            page_count: self.page_count,
            encrypted: self.encrypted,
            tagged: self.tagged,
        }
    }
}

/// An entry of the outline: a bookmark and the bookmarks below it.
#[derive(Debug)]
pub struct OutlineItem {
    /// The title.
    pub title: String,
    /// The number of the page it leads to, from 1, where that is known.
    pub page: Option<u32>,
    /// Nesting level, 0 at the top.
    pub level: u8,
    /// The entries below this one.
    pub children: Vec<OutlineItem>,
}

impl OutlineItem {
    /// An entry without children.
    pub fn new(title: &str, page: Option<u32>, level: u8) -> (r: OutlineItem)
        ensures
            r.title@ == title@,
            r.page == page,
            r.level == level,
            r.children@.len() == 0,
    {
        OutlineItem { title: title.to_owned(), page, level, children: Vec::new() }
    }

    /// Appends an entry below this one.
    pub fn add_child(&mut self, child: OutlineItem)
        ensures
            final(self).children@ == old(self).children@.push(child),
            final(self).title == old(self).title,
            final(self).page == old(self).page,
            final(self).level == old(self).level,
    {
        self.children.push(child);
    }
}

/// Two rows of entries hold the same: titles, pages, levels, and the
/// entries below, one for one.
pub open spec fn same_items(a: Seq<OutlineItem>, b: Seq<OutlineItem>) -> bool
    decreases a,
{
    a.len() == b.len() && forall|i: int|
        0 <= i < a.len() ==> {
            &&& (#[trigger] a[i]).title@ == b[i].title@
            &&& a[i].page == b[i].page
            &&& a[i].level == b[i].level
            &&& same_items(a[i].children@, b[i].children@)
        }
}

/// Copies of the entries.
pub fn duplicate_items(items: &Vec<OutlineItem>) -> (r: Vec<OutlineItem>)
    ensures
        same_items(items@, r@),
    decreases items,
{
    let mut r: Vec<OutlineItem> = Vec::new();
    let mut i: usize = 0;
    while i < items.len()
        invariant
            i <= items.len(),
            r@.len() == i,
            forall|k: int|
                0 <= k < i ==> {
                    &&& (#[trigger] items@[k]).title@ == r@[k].title@
                    &&& items@[k].page == r@[k].page
                    &&& items@[k].level == r@[k].level
                    &&& same_items(items@[k].children@, r@[k].children@)
                },
        decreases items.len() - i,
    {
        let item = &items[i];
        let children = duplicate_items(&item.children);
        r.push(
            OutlineItem {
                title: item.title.clone(),
                page: item.page,
                level: item.level,
                children,
            },
        );
        i += 1;
    }
    r
}

/// The outline of a document: its bookmarks, as a tree.
#[derive(Debug)]
pub struct Outline {
    /// The entries at the top level.
    pub items: Vec<OutlineItem>,
}

/// The number of entries in the trees below `items`, the roots included.
pub open spec fn count_items(items: Seq<OutlineItem>) -> nat
    decreases items,
{
    if items.len() == 0 {
        0
    } else {
        count_items(items.drop_last()) + 1 + count_items(items.last().children@)
    }
}

/// A count as far as `usize` can hold it.
pub open spec fn capped(n: nat) -> usize {
    if n > usize::MAX {
        usize::MAX
    } else {
        n as usize
    }
}

fn count_entries(items: &Vec<OutlineItem>) -> (r: usize)
    ensures
        r == capped(count_items(items@)),
    decreases items,
{
    let mut total: usize = 0;
    let mut i: usize = 0;
    while i < items.len()
        invariant
            i <= items.len(),
            total == capped(count_items(items@.take(i as int))),
        decreases items.len() - i,
    {
        assert(items@.take(i + 1).drop_last() == items@.take(i as int));
        let below = count_entries(&items[i].children);
        total = total.saturating_add(1).saturating_add(below);
        i += 1;
    }
    assert(items@.take(items.len() as int) == items@);
    total
}

impl Outline {
    /// An empty outline.
    pub fn new() -> (r: Outline)
        ensures
            r.items@.len() == 0,
    {
        Outline { items: Vec::new() }
    }

    /// Appends an entry at the top level.
    pub fn add_item(&mut self, item: OutlineItem)
        ensures
            final(self).items@ == old(self).items@.push(item),
    {
        self.items.push(item);
    }

    /// Tests whether the outline has no entry.
    pub fn is_empty(&self) -> (r: bool)
        ensures
            r == (self.items@.len() == 0),
    {
        self.items.len() == 0
    }

    /// The number of entries at all levels, as far as `usize` can count.
    pub fn total_items(&self) -> (r: usize)
        ensures
            r == capped(count_items(self.items@)),
    {
        count_entries(&self.items)
    }
}

impl Default for Outline {
    fn default() -> (r: Outline)
        ensures
            r.items@.len() == 0,
    {
        Outline::new()
    }
}

/// A resource of the document under its id.
#[derive(Debug, Clone)]
pub struct ResourceEntry {
    /// The id, unique in the document.
    pub id: String,
    /// The resource.
    pub resource: Resource,
}

/// A parsed document.
#[derive(Debug)]
pub struct Document {
    /// What is known about the document as a whole.
    pub metadata: Metadata,
    /// The pages, in document order.
    pub pages: Vec<Page>,
    /// The embedded resources; no id occurs twice.
    pub resources: Vec<ResourceEntry>,
    /// The outline, where the document has one.
    pub outline: Option<Outline>,
}

/// No id occurs twice among the entries.
pub open spec fn ids_unique(entries: Seq<ResourceEntry>) -> bool {
    forall|i: int, j: int|
        0 <= i < j < entries.len() ==> (#[trigger] entries[i]).id@ != (#[trigger] entries[j]).id@
}

/// The index of the entry with the id, or the number of entries where none
/// has it.
pub open spec fn index_of_id(entries: Seq<ResourceEntry>, id: Seq<char>) -> int
    decreases entries.len(),
{
    if entries.len() == 0 {
        0
    } else if entries[0].id@ == id {
        0
    } else {
        1 + index_of_id(entries.drop_first(), id)
    }
}

/// The index found is in range where some entry has the id, and names the
/// first such entry.
pub proof fn lemma_index_of_id(entries: Seq<ResourceEntry>, id: Seq<char>)
    ensures
        0 <= index_of_id(entries, id) <= entries.len(),
        index_of_id(entries, id) < entries.len() ==> entries[index_of_id(entries, id)].id@ == id,
        forall|k: int| 0 <= k < index_of_id(entries, id) ==> (#[trigger] entries[k]).id@ != id,
    decreases entries.len(),
{
    if entries.len() > 0 && entries[0].id@ != id {
        let rest = entries.drop_first();
        lemma_index_of_id(rest, id);
        assert forall|k: int| 0 <= k < index_of_id(entries, id) implies (#[trigger] entries[k]).id@
            != id by {
            if k > 0 {
                assert(entries[k] == rest[k - 1]);
            }
        }
    }
}

/// The plain texts of the pages.
pub open spec fn page_texts(pages: Seq<Page>) -> Seq<Seq<char>> {
    pages.map_values(|p: Page| page_text(p.elements@))
}

/// The plain text of a document: that of its pages, joined by blank lines.
pub open spec fn document_text(pages: Seq<Page>) -> Seq<char> {
    joined_by_blank_lines(page_texts(pages))
}

impl Document {
    /// An empty document.
    pub fn new() -> (r: Document)
        ensures
            is_bare_metadata(r.metadata),
            r.metadata.pdf_version@.len() == 0,
            r.metadata.page_count == 0,
            r.pages@.len() == 0,
            r.resources@.len() == 0,
            r.outline is None,
    {
        Document {
            metadata: Metadata::default(),
            pages: Vec::new(),
            resources: Vec::new(),
            outline: None,
        }
    }

    /// The number of pages held, as far as `u32` can count.
    pub fn page_count(&self) -> (r: u32)
        ensures
            r == if self.pages@.len() > u32::MAX {
                u32::MAX
            } else {
                self.pages@.len() as u32
            },
    {
        let n = self.pages.len();
        if n > u32::MAX as usize {
            u32::MAX
        } else {
            n as u32
        }
    }

    /// The page at position `page_num`, counting from 1.
    pub fn get_page(&self, page_num: u32) -> (r: Option<&Page>)
        ensures
            match r {
                Some(p) => 1 <= page_num <= self.pages@.len() && *p == self.pages@[page_num - 1],
                None => page_num == 0 || page_num > self.pages@.len(),
            },
    {
        if page_num == 0 {
            return None;
        }
        let i = (page_num - 1) as usize;
        if i < self.pages.len() {
            Some(&self.pages[i])
        } else {
            None
        }
    }

    /// Appends a page.
    pub fn add_page(&mut self, page: Page)
        ensures
            final(self).pages@ == old(self).pages@.push(page),
            final(self).metadata == old(self).metadata,
            final(self).resources == old(self).resources,
            final(self).outline == old(self).outline,
    {
        self.pages.push(page);
    }

    /// Puts a resource under an id; a resource that is there under the id
    /// is replaced.
    pub fn add_resource(&mut self, id: String, resource: Resource)
        ensures
            final(self).pages == old(self).pages,
            final(self).metadata == old(self).metadata,
            final(self).outline == old(self).outline,
            ({
                let at = index_of_id(old(self).resources@, id@);
                let entry = ResourceEntry { id, resource };
                final(self).resources@ == if at < old(self).resources@.len() {
                    old(self).resources@.update(at, entry)
                } else {
                    old(self).resources@.push(entry)
                }
            }),
    {
        let at = self.find_resource(id.as_str());
        if at < self.resources.len() {
            self.resources.set(at, ResourceEntry { id, resource });
        } else {
            self.resources.push(ResourceEntry { id, resource });
        }
    }

    fn find_resource(&self, id: &str) -> (r: usize)
        ensures
            r == index_of_id(self.resources@, id@),
            r <= self.resources@.len(),
    {
        let n = self.resources.len();
        let ghost entries = self.resources@;
        let mut i: usize = 0;
        assert(entries.subrange(0, n as int) == entries);
        while i < n
            invariant
                i <= n,
                n == entries.len(),
                entries == self.resources@,
                index_of_id(entries, id@) == i + index_of_id(
                    entries.subrange(i as int, n as int),
                    id@,
                ),
            decreases n - i,
        {
            assert(entries.subrange(i as int, n as int)[0] == entries[i as int]);
            if same_str(self.resources[i].id.as_str(), id) {
                return i;
            }
            assert(entries.subrange(i as int, n as int).drop_first() == entries.subrange(
                i + 1,
                n as int,
            ));
            i += 1;
        }
        n
    }

    /// The resource under the id.
    pub fn get_resource(&self, id: &str) -> (r: Option<&Resource>)
        ensures
            match r {
                Some(res) => index_of_id(self.resources@, id@) < self.resources@.len() && *res
                    == self.resources@[index_of_id(self.resources@, id@)].resource,
                None => index_of_id(self.resources@, id@) >= self.resources@.len(),
            },
    {
        let at = self.find_resource(id);
        if at < self.resources.len() {
            Some(&self.resources[at].resource)
        } else {
            None
        }
    }

    /// Tests whether the document has no page.
    pub fn is_empty(&self) -> (r: bool)
        ensures
            r == (self.pages@.len() == 0),
    {
        self.pages.len() == 0
    }

    /// The plain text of the document: that of its pages, joined by blank
    /// lines.
    pub fn plain_text(&self) -> (r: String)
        ensures
            r@ == document_text(self.pages@),
    {
        let ghost texts = page_texts(self.pages@);
        let mut out = String::new();
        let mut i: usize = 0;
        while i < self.pages.len()
            invariant
                i <= self.pages.len(),
                texts == page_texts(self.pages@),
                out@ == joined_by_blank_lines(texts.take(i as int)),
            decreases self.pages.len() - i,
        {
            assert(texts.take(i + 1).drop_last() == texts.take(i as int));
            let t = self.pages[i].plain_text();
            append_separated(&mut out, t.as_str(), i == 0);
            i += 1;
        }
        assert(texts.take(self.pages.len() as int) == texts);
        out
    }
}

/// Adding a resource keeps the ids unique.
pub proof fn lemma_add_resource_keeps_ids_unique(
    entries: Seq<ResourceEntry>,
    entry: ResourceEntry,
)
    requires
        ids_unique(entries),
    ensures
        ids_unique(
            if index_of_id(entries, entry.id@) < entries.len() {
                entries.update(index_of_id(entries, entry.id@), entry)
            } else {
                entries.push(entry)
            },
        ),
{
    lemma_index_of_id(entries, entry.id@);
    let at = index_of_id(entries, entry.id@);
    if at < entries.len() {
        let out = entries.update(at, entry);
        assert forall|i: int, j: int| 0 <= i < j < out.len() implies (#[trigger] out[i]).id@ != (
        #[trigger] out[j]).id@ by {
            assert(out[i].id@ == entries[i].id@);
            assert(out[j].id@ == entries[j].id@);
        }
    } else {
        let out = entries.push(entry);
        assert forall|i: int, j: int| 0 <= i < j < out.len() implies (#[trigger] out[i]).id@ != (
        #[trigger] out[j]).id@ by {
            if j < entries.len() {
                assert(out[i] == entries[i] && out[j] == entries[j]);
            } else {
                assert(out[i] == entries[i]);
            }
        }
    }
}

impl Default for Document {
    fn default() -> (r: Document)
        ensures
            r.pages@.len() == 0,
            r.resources@.len() == 0,
            r.outline is None,
    {
        Document::new()
    }
}

} // verus!
