//! The library index: one small record per book, kept in RAM and written atomically to the
//! card. Positions, status, collections and per-book reading totals live here so the Library,
//! Book info and Analytics screens never touch the cache.
use vstd::prelude::*;

use crate::layout::Pos;
use crate::order;
use crate::order::{KeyView, SortKey};
use crate::text;

verus! {

/// Index file version.
pub const VERSION: u16 = 1;

/// The reader's own folder.
pub const ROOT: &'static str = "/.quire";

/// The index file.
pub const INDEX_FILE: &'static str = "/.quire/library.bin";

/// The positions file: tiny, rewritten on position changes instead of the whole index.
pub const POSITIONS_FILE: &'static str = "/.quire/positions.bin";

/// Longest error message kept in an entry.
pub const ERROR_BYTES: usize = 48;

/// Upper bound on entries (a card with more files than this is still fine; the rest are
/// reachable through the folder browser).
pub const MAX_BOOKS: usize = 4000;

/// Stable content id of a book; also its cache directory name.
#[derive(Clone, Copy, Debug, PartialEq, Eq, Structural)]
pub struct BookId(pub u64);

/// A detected file format.
#[derive(Clone, Copy, Debug, PartialEq, Eq, Structural)]
pub enum Format {
    /// EPUB.
    Epub,
    /// Another format, by its number in the converter's list.
    Other(u8),
}

/// A position in a book that survives font changes.
#[derive(Clone, Copy, Debug, PartialEq, Eq, Structural)]
pub struct Loc {
    /// Cache section (chapter file) index.
    pub section: u16,
    /// Exact position within the section.
    pub pos: Pos,
    /// Characters before `pos` in the whole book (for percent and time-left).
    pub chars: u32,
}

impl Default for Loc {
    fn default() -> (r: Self)
        ensures
            r == (Loc { section: 0, pos: (Pos { para: 0, word: 0, part: 0 }), chars: 0 }),
    {
        Loc { section: 0, pos: Pos::start(), chars: 0 }
    }
}

/// Reading status.
#[derive(Clone, Copy, Debug, PartialEq, Eq, Structural)]
pub enum Status {
    /// Never opened.
    Unread,
    /// Opened at least once.
    Reading,
    /// Marked or detected finished.
    Finished,
    /// Put aside deliberately.
    Abandoned,
}

impl Default for Status {
    fn default() -> (r: Self)
        ensures
            r == Status::Unread,
    {
        Status::Unread
    }
}

/// Whether the book's cache is ready.
#[derive(Clone, Copy, Debug, PartialEq, Eq, Structural)]
pub enum IngestState {
    /// Seen on the card, not yet converted.
    Pending,
    /// Chapter cache complete.
    Ready,
    /// Conversion failed (the message is in `error`).
    Failed,
}

impl Default for IngestState {
    fn default() -> (r: Self)
        ensures
            r == IngestState::Pending,
    {
        IngestState::Pending
    }
}

/// Per-book reading totals, updated when a session ends.
#[derive(Clone, Debug, PartialEq, Eq)]
pub struct BookStats {
    /// Seconds read.
    pub seconds: u32,
    /// Pages turned.
    pub pages: u32,
    /// Sessions.
    pub sessions: u16,
    /// Day (local, days since epoch) first read.
    pub started: Option<u16>,
    /// Day finished.
    pub finished: Option<u16>,
    /// Last seven sessions' (characters, seconds) for pace forecasts.
    pub recent: Vec<(u32, u32)>,
    /// Rating 0–5.
    pub rating: u8,
}

impl Default for BookStats {
    fn default() -> (r: Self)
        ensures
            r.seconds == 0,
            r.pages == 0,
            r.sessions == 0,
            r.started is None,
            r.finished is None,
            r.recent@.len() == 0,
            r.rating == 0,
    {
        BookStats { seconds: 0, pages: 0, sessions: 0, started: None, finished: None, recent: Vec::new(), rating: 0 }
    }
}

/// One book.
#[derive(Clone, Debug, PartialEq, Eq)]
pub struct BookEntry {
    /// Stable content id; also the cache directory name.
    pub id: BookId,
    /// Path of the source file on the card.
    pub path: String,
    /// Source size in bytes.
    pub size: u64,
    /// Detected format.
    pub format: Format,
    /// Display title (from metadata or the file name).
    pub title: String,
    /// Authors.
    pub authors: Vec<String>,
    /// Series and index × 10.
    pub series: Option<(String, u16)>,
    /// Year.
    pub year: Option<u16>,
    /// Language code.
    pub language: String,
    /// Number of cache sections.
    pub sections: u16,
    /// Total characters.
    pub chars: u32,
    /// Whether a cover was extracted.
    pub has_cover: bool,
    /// Cache state.
    pub ingest: IngestState,
    /// Ingest error text, if any.
    pub error: Option<String>,
    /// When the file was first seen (local seconds).
    pub added: u32,
    /// When it was last opened.
    pub last_opened: u32,
    /// Where the reader is.
    pub loc: Loc,
    /// Reading status.
    pub status: Status,
    /// Collections this book belongs to.
    pub collections: Vec<u16>,
    /// Reading totals.
    pub stats: BookStats,
    /// True when the source file is no longer on the card.
    pub missing: bool,
    /// Total pages for a typography profile key, once its page index is complete.
    pub pages_total: Option<(u32, u32)>,
}

/// The per-book part of the index that changes while reading.
#[derive(Clone, Copy, Debug, PartialEq, Eq)]
pub struct PosRecord {
    /// The book.
    pub id: BookId,
    /// Where the reader is.
    pub loc: Loc,
    /// Reading status.
    pub status: Status,
    /// When the book was last opened.
    pub last_opened: u32,
    /// Day first read.
    pub started: Option<u16>,
    /// Day finished.
    pub finished: Option<u16>,
}

impl BookEntry {
    /// Percent read.
    pub open spec fn percent_read(self) -> int {
        if self.status == Status::Finished {
            100
        } else if self.chars == 0 {
            0
        } else if self.loc.chars as int * 100 / self.chars as int > 100 {
            100
        } else {
            self.loc.chars as int * 100 / self.chars as int
        }
    }

    /// Percent read, 0–100.
    pub fn percent(&self) -> (r: u8)
        ensures
            r == self.percent_read(),
            r <= 100,
    {
        if self.status == Status::Finished {
            return 100;
        }
        if self.chars == 0 {
            return 0;
        }
        let p: u64 = (self.loc.chars as u64 * 100) / self.chars as u64;
        if p > 100 {
            100
        } else {
            p as u8
        }
    }

    /// Characters left.
    pub fn chars_left(&self) -> (r: u32)
        ensures
            r == self.left_to_read(),
            r == if self.loc.chars <= self.chars {
                self.chars - self.loc.chars
            } else {
                0
            },
    {
        self.chars.saturating_sub(self.loc.chars)
    }

    /// Author line for lists ("Eliot" / "Gal, Eich +12").
    pub open spec fn authors_shown(self) -> Seq<char> {
        let a = text::texts(self.authors@);
        if a.len() == 0 {
            Seq::empty()
        } else if a.len() == 1 {
            a[0]
        } else if a.len() == 2 {
            a[0] + " & "@ + a[1]
        } else {
            a[0] + ", "@ + a[1] + " +"@ + text::decimal((a.len() - 2) as nat)
        }
    }

    /// Author line for lists ("Eliot" / "Gal, Eich +12").
    pub fn author_line(&self) -> (r: String)
        ensures
            r@ == self.authors_shown(),
    {
        let n: usize = self.authors.len();
        if n == 0 {
            String::new()
        } else if n == 1 {
            self.authors[0].clone()
        } else if n == 2 {
            text::join3(&self.authors[0], " & ", &self.authors[1])
        } else {
            let two = text::join3(&self.authors[0], ", ", &self.authors[1]);
            text::join3(&two, " +", &text::number((n - 2) as u64))
        }
    }

    /// Virtual entries (news articles, wiki pages) stay off the shelves.
    pub open spec fn is_hidden(self) -> bool {
        self.missing || "news:"@.is_prefix_of(self.path@) || "wiki:"@.is_prefix_of(self.path@)
    }

    /// Virtual entries (news articles, wiki pages) stay off the shelves.
    pub fn hidden(&self) -> (r: bool)
        ensures
            r == self.is_hidden(),
    {
        self.missing || text::starts_with(&self.path, "news:") || text::starts_with(&self.path, "wiki:")
    }

    /// The author's name that the book stands under.
    fn heading(&self) -> (r: String)
        ensures
            r@ == author_heading(*self),
    {
        if self.authors.len() > 0 {
            self.authors[0].clone()
        } else {
            text::owned(UNKNOWN_AUTHOR)
        }
    }

    /// When the book last mattered: opened or added, whichever is later.
    pub open spec fn last_touched(self) -> u32 {
        if self.last_opened >= self.added {
            self.last_opened
        } else {
            self.added
        }
    }

    /// Sort key for the shelf: last opened, then added.
    pub fn recency(&self) -> (r: u32)
        ensures
            r == self.last_touched(),
    {
        if self.last_opened >= self.added {
            self.last_opened
        } else {
            self.added
        }
    }
}

/// A named collection (shelf).
#[derive(Clone, Debug, PartialEq, Eq)]
pub struct Collection {
    /// Id referenced by books.
    pub id: u16,
    /// Display name.
    pub name: String,
    /// Sort order.
    pub order: u16,
}

/// The whole index.
#[derive(Clone, Debug, PartialEq, Eq)]
pub struct Library {
    /// Version of the stored form.
    pub version: u16,
    /// Books.
    pub books: Vec<BookEntry>,
    /// Collections.
    pub collections: Vec<Collection>,
    /// Folders scanned for books.
    pub sources: Vec<String>,
    /// The book shown as home (last opened).
    pub current: Option<BookId>,
    /// The next collection's id.
    pub next_collection: u16,
    /// The index has unsaved changes.
    pub dirty: bool,
    /// The positions have unsaved changes.
    pub dirty_pos: bool,
    /// Bumped on every change, so screens can tell when a cached view is stale.
    pub generation: u32,
}

/// Whether book `i` is the first with this id.
pub open spec fn is_first(books: Seq<BookEntry>, id: BookId, i: int) -> bool {
    0 <= i < books.len() && books[i].id == id && forall|j: int| 0 <= j < i ==> (#[trigger] books[j]).id != id
}

/// Where the first book with this id stands.
pub open spec fn spot(books: Seq<BookEntry>, id: BookId) -> Option<int> {
    if exists|i: int| is_first(books, id, i) {
        Some(choose|i: int| is_first(books, id, i))
    } else {
        None
    }
}

/// The books with the first one of this id changed.
pub open spec fn with_book(books: Seq<BookEntry>, id: BookId, f: spec_fn(BookEntry) -> BookEntry) -> Seq<BookEntry> {
    match spot(books, id) {
        Some(i) => books.update(i, f(books[i])),
        None => books,
    }
}

/// A book whose error message fits.
pub open spec fn fitted(e: BookEntry, r: BookEntry) -> bool {
    &&& r == BookEntry { error: r.error, ..e }
    &&& match (e.error, r.error) {
        (Some(a), Some(b)) => b@ == text::clipped(a@, ERROR_BYTES as nat),
        (None, None) => true,
        _ => false,
    }
}

/// The books with an entry put in: in place of the first one of the same id, or at the end as
/// long as there is room.
pub open spec fn upserted(books: Seq<BookEntry>, e: BookEntry) -> Seq<BookEntry> {
    match spot(books, e.id) {
        Some(i) => books.update(i, e),
        None => if books.len() < MAX_BOOKS {
            books.push(e)
        } else {
            books
        },
    }
}

/// A collection list with one membership toggled: the first occurrence taken out, or the
/// collection put at the end.
pub open spec fn toggled(was: Seq<u16>, coll: u16) -> Seq<u16> {
    if was.contains(coll) {
        was.remove(was.index_of_first(coll)->0)
    } else {
        was.push(coll)
    }
}

/// Whether a book's position is worth writing down.
pub open spec fn recorded(b: BookEntry) -> bool {
    b.status != Status::Unread || b.last_opened > 0
}

/// A book's position record.
pub open spec fn record_of(b: BookEntry) -> PosRecord {
    PosRecord {
        id: b.id,
        loc: b.loc,
        status: b.status,
        last_opened: b.last_opened,
        started: b.stats.started,
        finished: b.stats.finished,
    }
}

/// The position records of the books that have one.
pub open spec fn records(books: Seq<BookEntry>) -> Seq<PosRecord>
    decreases books.len(),
{
    if books.len() == 0 {
        Seq::empty()
    } else if recorded(books.last()) {
        records(books.drop_last()).push(record_of(books.last()))
    } else {
        records(books.drop_last())
    }
}

/// A book with its position record laid over it.
pub open spec fn with_record(b: BookEntry, r: PosRecord) -> BookEntry {
    BookEntry {
        loc: r.loc,
        status: r.status,
        last_opened: if b.last_opened >= r.last_opened { b.last_opened } else { r.last_opened },
        stats: BookStats {
            started: if b.stats.started is Some { b.stats.started } else { r.started },
            finished: r.finished,
            ..b.stats
        },
        ..b
    }
}

/// The books with position records laid over them, one after the other.
pub open spec fn merged(books: Seq<BookEntry>, recs: Seq<PosRecord>) -> Seq<BookEntry>
    decreases recs.len(),
{
    if recs.len() == 0 {
        books
    } else {
        let r = recs.last();
        with_book(merged(books, recs.drop_last()), r.id, |b: BookEntry| with_record(b, r))
    }
}

fn find(books: &Vec<BookEntry>, id: BookId) -> (r: Option<usize>)
    ensures
        r is Some <==> spot(books@, id) is Some,
        r matches Some(i) ==> spot(books@, id) == Some(i as int) && is_first(books@, id, i as int),
{
    let mut i: usize = 0;
    while i < books.len()
        invariant
            i <= books@.len(),
            forall|j: int| 0 <= j < i ==> (#[trigger] books@[j]).id != id,
        decreases books@.len() - i,
    {
        if books[i].id == id {
            assert(is_first(books@, id, i as int));
            assert(spot(books@, id) == Some(i as int)) by {
                let k = spot(books@, id)->0;
                assert(is_first(books@, id, k));
                assert(books@[k].id == id && books@[i as int].id == id);
            }
            return Some(i);
        }
        i += 1;
    }
    assert(spot(books@, id) is None);
    None
}

impl Library {
    /// An index with nothing in it.
    pub open spec fn is_blank(self) -> bool {
        &&& self.version == 0
        &&& self.books@.len() == 0
        &&& self.collections@.len() == 0
        &&& self.sources@.len() == 0
        &&& self.current is None
        &&& self.next_collection == 0
        &&& !self.dirty
        &&& !self.dirty_pos
        &&& self.generation == 0
    }
}

impl Default for Library {
    fn default() -> (r: Self)
        ensures
            r.is_blank(),
    {
        Library {
            version: 0,
            books: Vec::new(),
            collections: Vec::new(),
            sources: Vec::new(),
            current: None,
            next_collection: 0,
            dirty: false,
            dirty_pos: false,
            generation: 0,
        }
    }
}

fn lay_record(b: &mut BookEntry, r: &PosRecord)
    ensures
        *final(b) == with_record(*old(b), *r),
{
    b.loc = r.loc;
    b.status = r.status;
    if b.last_opened < r.last_opened {
        b.last_opened = r.last_opened;
    }
    if b.stats.started.is_none() {
        b.stats.started = r.started;
    }
    b.stats.finished = r.finished;
}

impl Library {
    /// Whether what is stored is of this version.
    pub open spec fn usable(stored: Option<Library>) -> bool {
        stored matches Some(s) && s.version == VERSION
    }

    /// Take up the stored index and positions, or start empty where the index is missing,
    /// unreadable or of another version. Positions are written separately and more often; they
    /// win over the index copy.
    pub fn load(stored: Option<Library>, positions: Option<Vec<PosRecord>>, default_sources: Vec<String>) -> (r: Library)
        ensures
            is_loaded(stored, positions, default_sources, r),
            r.version == VERSION,
            !r.dirty,
            !r.dirty_pos,
            r.generation == 0,
            r.books@ == merged(
                if Library::usable(stored) { (stored->0).books@ } else { Seq::empty() },
                match positions {
                    Some(p) => p@,
                    None => Seq::empty(),
                },
            ),
            r.sources == if Library::usable(stored) && (stored->0).sources@.len() > 0 {
                (stored->0).sources
            } else {
                default_sources
            },
            Library::usable(stored) ==> r.collections == (stored->0).collections && r.current == (stored->0).current
                && r.next_collection == (stored->0).next_collection,
            !Library::usable(stored) ==> r.collections@.len() == 0 && r.current is None && r.next_collection == 0,
    {
        let mut lib = match stored {
            Some(s) => if s.version == VERSION {
                s
            } else {
                Library::default()
            },
            None => Library::default(),
        };
        let ghost base = lib.books@;
        assert(base =~= (if Library::usable(stored) { (stored->0).books@ } else { Seq::empty() }));
        lib.version = VERSION;
        if lib.sources.len() == 0 {
            lib.sources = default_sources;
        }
        if let Some(recs) = positions {
            let mut i: usize = 0;
            let ghost kept = lib;
            while i < recs.len()
                invariant
                    i <= recs@.len(),
                    lib.books@ == merged(base, recs@.take(i as int)),
                    lib.version == VERSION,
                    lib.sources == kept.sources,
                    lib.collections == kept.collections,
                    lib.current == kept.current,
                    lib.next_collection == kept.next_collection,
                decreases recs@.len() - i,
            {
                assert(recs@.take(i + 1).drop_last() =~= recs@.take(i as int));
                if let Some(k) = find(&lib.books, recs[i].id) {
                    lay_record(&mut lib.books[k], &recs[i]);
                }
                i += 1;
            }
            assert(recs@.take(i as int) =~= recs@);
        }
        lib.dirty = false;
        lib.dirty_pos = false;
        lib.generation = 0;
        lib
    }
}

/// What a save asks for next.
#[derive(Clone, Debug, PartialEq, Eq)]
pub enum SaveAsk {
    /// Nothing is left to write.
    Done,
    /// The reader's folder must exist.
    MakeRoot,
    /// Write the index file, atomically.
    WriteIndex,
    /// Write the positions file, atomically.
    WritePositions(Vec<PosRecord>),
    /// A write failed: what was not written stays unsaved.
    Failed,
}

/// What became of what a save asked for.
#[derive(Clone, Copy, Debug, PartialEq, Eq, Structural)]
pub enum SaveEvent {
    /// The save begins.
    Start,
    /// The folder is there, or could not be made.
    Root(bool),
    /// The index was written, or not.
    Index(bool),
    /// The positions were written, or not.
    Positions(bool),
}

/// Which file a save turns to, by what is unsaved.
pub open spec fn next_write(ask: SaveAsk, dirty: bool, dirty_pos: bool, books: Seq<BookEntry>) -> bool {
    if dirty {
        ask is WriteIndex
    } else if dirty_pos {
        ask matches SaveAsk::WritePositions(recs) && recs@ == records(books)
    } else {
        ask is Done
    }
}

/// Whether the index is unsaved after an event of a save.
pub open spec fn index_unsaved(dirty: bool, ev: SaveEvent) -> bool {
    dirty && ev != SaveEvent::Index(true)
}

/// Whether the positions are unsaved after an event of a save.
pub open spec fn positions_unsaved(dirty_pos: bool, ev: SaveEvent) -> bool {
    dirty_pos && ev != SaveEvent::Positions(true)
}

/// Whether `ask` is what a save asks for after an event, by what was unsaved before it.
pub open spec fn asks_next(ask: SaveAsk, dirty: bool, dirty_pos: bool, ev: SaveEvent, books: Seq<BookEntry>) -> bool {
    match ev {
        SaveEvent::Start => if dirty || dirty_pos {
            ask is MakeRoot
        } else {
            ask is Done
        },
        SaveEvent::Root(false) | SaveEvent::Index(false) | SaveEvent::Positions(false) => ask is Failed,
        _ => next_write(ask, index_unsaved(dirty, ev), positions_unsaved(dirty_pos, ev), books),
    }
}

impl Library {
    /// Everything but the unsaved marks is the same.
    pub open spec fn same_contents(self, o: Library) -> bool {
        self == Library { dirty: self.dirty, dirty_pos: self.dirty_pos, ..o }
    }

    /// Write whatever changed: the positions file (small, frequent) and the index (larger,
    /// only on structural changes). Called with [`SaveEvent::Start`], then with what became of
    /// each thing it asked for, until it asks for nothing more.
    pub fn save(&mut self, ev: SaveEvent) -> (ask: SaveAsk)
        ensures
            final(self).same_contents(*old(self)),
            final(self).dirty == index_unsaved(old(self).dirty, ev),
            final(self).dirty_pos == positions_unsaved(old(self).dirty_pos, ev),
            asks_next(ask, old(self).dirty, old(self).dirty_pos, ev, old(self).books@),
    {
        match ev {
            SaveEvent::Start => {
                if !self.dirty && !self.dirty_pos {
                    return SaveAsk::Done;
                }
                return SaveAsk::MakeRoot;
            },
            SaveEvent::Root(ok) => {
                if !ok {
                    return SaveAsk::Failed;
                }
            },
            SaveEvent::Index(ok) => {
                if !ok {
                    return SaveAsk::Failed;
                }
                self.dirty = false;
            },
            SaveEvent::Positions(ok) => {
                if !ok {
                    return SaveAsk::Failed;
                }
                self.dirty_pos = false;
            },
        }
        if self.dirty {
            SaveAsk::WriteIndex
        } else if self.dirty_pos {
            SaveAsk::WritePositions(self.position_records())
        } else {
            SaveAsk::Done
        }
    }

    /// Write only the positions file (on page turns' periodic save and before sleep), whether or
    /// not they are marked as changed; once they are written they are no longer. Called with
    /// [`SaveEvent::Start`], then with what became of each thing it asked for, until it is done
    /// or failed.
    pub fn save_positions(&mut self, ev: SaveEvent) -> (ask: SaveAsk)
        ensures
            final(self).same_contents(*old(self)),
            final(self).dirty == old(self).dirty,
            final(self).dirty_pos == positions_unsaved(old(self).dirty_pos, ev),
            match ev {
                SaveEvent::Start => ask is MakeRoot,
                SaveEvent::Root(true) => ask matches SaveAsk::WritePositions(recs) && recs@ == records(old(self).books@),
                SaveEvent::Positions(true) => ask is Done,
                _ => ask is Failed,
            },
    {
        match ev {
            SaveEvent::Start => SaveAsk::MakeRoot,
            SaveEvent::Root(true) => SaveAsk::WritePositions(self.position_records()),
            SaveEvent::Positions(true) => {
                self.dirty_pos = false;
                SaveAsk::Done
            },
            _ => SaveAsk::Failed,
        }
    }

    /// The positions file's records.
    pub fn position_records(&self) -> (recs: Vec<PosRecord>)
        ensures
            recs@ == records(self.books@),
    {
        let mut recs: Vec<PosRecord> = Vec::new();
        let mut i: usize = 0;
        while i < self.books.len()
            invariant
                i <= self.books@.len(),
                recs@ == records(self.books@.take(i as int)),
            decreases self.books@.len() - i,
        {
            assert(self.books@.take(i + 1).drop_last() =~= self.books@.take(i as int));
            let b = &self.books[i];
            if b.status != Status::Unread || b.last_opened > 0 {
                recs.push(PosRecord {
                    id: b.id,
                    loc: b.loc,
                    status: b.status,
                    last_opened: b.last_opened,
                    started: b.stats.started,
                    finished: b.stats.finished,
                });
            }
            i += 1;
        }
        assert(self.books@.take(i as int) =~= self.books@);
        recs
    }

    /// A counter bumped on every change to the index or the positions: a screen that
    /// caches a sorted view compares it to know when to rebuild.
    pub fn generation(&self) -> (r: u32)
        ensures
            r == self.generation,
    {
        self.generation
    }

    /// Whether there are unsaved changes.
    pub fn is_dirty(&self) -> (r: bool)
        ensures
            r == (self.dirty || self.dirty_pos),
    {
        self.dirty || self.dirty_pos
    }

    /// Mark the index changed (structure or metadata).
    pub fn touch(&mut self)
        ensures
            touches_index(*old(self), *final(self)),
            *final(self) == (Library { dirty: true, generation: old(self).generation.wrapping_add(1), ..*old(self) }),
    {
        self.dirty = true;
        self.generation = self.generation.wrapping_add(1);
    }

    /// Mark positions changed.
    pub fn touch_positions(&mut self)
        ensures
            touches_positions(*old(self), *final(self)),
            *final(self) == (Library { dirty_pos: true, generation: old(self).generation.wrapping_add(1), ..*old(self) }),
    {
        self.dirty_pos = true;
        self.generation = self.generation.wrapping_add(1);
    }

    /// Find a book.
    pub fn get(&self, id: BookId) -> (r: Option<&BookEntry>)
        ensures
            r is Some <==> spot(self.books@, id) is Some,
            r matches Some(b) ==> *b == self.books@[spot(self.books@, id)->0],
    {
        match find(&self.books, id) {
            Some(i) => Some(&self.books[i]),
            None => None,
        }
    }

    /// Find a book mutably. Call [`Library::touch`] (or `touch_positions`) after changing it.
    pub fn get_mut(&mut self, id: BookId) -> (r: Option<&mut BookEntry>)
        ensures
            r is Some <==> spot(old(self).books@, id) is Some,
            r matches Some(b) ==> *b == old(self).books@[spot(old(self).books@, id)->0] && final(self).books@
                == old(self).books@.update(spot(old(self).books@, id)->0, *final(b)),
            r is None ==> final(self).books == old(self).books,
            *final(self) == (Library { books: final(self).books, ..*old(self) }),
    {
        match find(&self.books, id) {
            Some(i) => Some(&mut self.books[i]),
            None => None,
        }
    }

    /// Whether book `i` is the first at this path.
    ///
    /// Paths are compared without regard to case, because the card is FAT32 and so is not
    /// case sensitive either: `/Books` and `/books` are one directory on it, so a scan of both
    /// must find the entry it made a moment before.
    pub open spec fn is_at(self, path: Seq<char>, i: int) -> bool {
        &&& 0 <= i < self.books@.len()
        &&& text::ascii_lower(self.books@[i].path@) == text::ascii_lower(path)
        &&& forall|j: int| 0 <= j < i ==> text::ascii_lower((#[trigger] self.books@[j]).path@) != text::ascii_lower(path)
    }

    /// Find by path.
    pub fn by_path(&self, path: &str) -> (r: Option<&BookEntry>)
        ensures
            r is None ==> forall|i: int|
                0 <= i < self.books@.len() ==> text::ascii_lower((#[trigger] self.books@[i]).path@) != text::ascii_lower(path@),
            r matches Some(b) ==> exists|i: int| self.is_at(path@, i) && *b == #[trigger] self.books@[i],
    {
        let mut i: usize = 0;
        while i < self.books.len()
            invariant
                i <= self.books@.len(),
                forall|j: int|
                    0 <= j < i ==> text::ascii_lower((#[trigger] self.books@[j]).path@) != text::ascii_lower(path@),
            decreases self.books@.len() - i,
        {
            if text::same_ignoring_case(&self.books[i].path, path) {
                assert(self.is_at(path@, i as int));
                return Some(&self.books[i]);
            }
            i += 1;
        }
        None
    }

    /// Nothing but the books, the marks and the generation differs.
    pub open spec fn same_but_books(self, o: Library) -> bool {
        self == Library {
            books: self.books,
            dirty: self.dirty,
            dirty_pos: self.dirty_pos,
            generation: self.generation,
            ..o
        }
    }

    /// Add or update an entry. An error message is cut to what is kept; a new book is left out
    /// when the index is full.
    pub fn upsert(&mut self, entry: BookEntry)
        ensures
            touches_index(*old(self), *final(self)),
            final(self).same_but_books(*old(self)),
            final(self).dirty,
            final(self).dirty_pos == old(self).dirty_pos,
            final(self).generation == old(self).generation.wrapping_add(1),
            exists|e: BookEntry|
                #[trigger] fitted(entry, e) && final(self).books@ == upserted(old(self).books@, e),
    {
        self.touch();
        let mut e = entry;
        if let Some(msg) = &e.error {
            let short = text::clip(msg, ERROR_BYTES);
            e.error = Some(short);
        }
        assert(fitted(entry, e));
        let ghost kept = e;
        if let Some(i) = find(&self.books, e.id) {
            self.books[i] = e;
        } else if self.books.len() < MAX_BOOKS {
            self.books.push(e);
        }
    }

    /// Remove an entry (the cache is removed separately).
    pub fn remove(&mut self, id: BookId) -> (r: Option<BookEntry>)
        ensures
            is_removal(*old(self), id, *final(self), r),
            spot(old(self).books@, id) is None ==> r is None && *final(self) == *old(self),
            spot(old(self).books@, id) matches Some(i) ==> {
                &&& r == Some(old(self).books@[i])
                &&& final(self).books@ == old(self).books@.remove(i)
                &&& *final(self) == (Library {
                    books: final(self).books,
                    current: if old(self).current == Some(id) {
                        None
                    } else {
                        old(self).current
                    },
                    dirty: true,
                    generation: old(self).generation.wrapping_add(1),
                    ..*old(self)
                })
            },
    {
        match find(&self.books, id) {
            None => None,
            Some(i) => {
                self.touch();
                if self.current == Some(id) {
                    self.current = None;
                }
                Some(self.books.remove(i))
            },
        }
    }
}

/// What a title sorts as: in lower case, without the white space around it and without a
/// leading article.
pub open spec fn title_key(t: Seq<char>) -> Seq<char> {
    let l = text::lower(text::trimmed(t));
    if text::after(l, "the "@) is Some {
        text::after(l, "the "@)->0
    } else if text::after(l, "a "@) is Some {
        text::after(l, "a "@)->0
    } else if text::after(l, "an "@) is Some {
        text::after(l, "an "@)->0
    } else {
        l
    }
}

/// Title without a leading article, lowercase, for sorting.
pub fn sort_title(t: &str) -> (r: String)
    ensures
        r@ == title_key(t@),
{
    let l = text::to_lowercase(&text::trim(t));
    if let Some(rest) = text::strip_prefix(&l, "the ") {
        return rest;
    }
    if let Some(rest) = text::strip_prefix(&l, "a ") {
        return rest;
    }
    if let Some(rest) = text::strip_prefix(&l, "an ") {
        return rest;
    }
    l
}

/// Shelf order: the later touched first, then by title.
pub open spec fn shelf_key(b: BookEntry) -> KeyView {
    KeyView { first: Seq::empty(), second: Seq::empty(), number: u32::MAX - b.last_touched(), last: b.title@ }
}

/// Title order.
pub open spec fn by_title_key(b: BookEntry) -> KeyView {
    KeyView { first: Seq::empty(), second: Seq::empty(), number: 0, last: title_key(b.title@) }
}

/// The first author; none is the empty text.
pub open spec fn first_author(b: BookEntry) -> Seq<char> {
    if b.authors@.len() > 0 {
        b.authors@[0]@
    } else {
        Seq::empty()
    }
}

/// The number in the series; 0 outside one.
pub open spec fn series_number(b: BookEntry) -> int {
    match b.series {
        Some(s) => s.1 as int,
        None => 0,
    }
}

/// The name of the series; the empty text outside one.
pub open spec fn series_name(b: BookEntry) -> Seq<char> {
    match b.series {
        Some(s) => s.0@,
        None => Seq::empty(),
    }
}

/// Author order: by first author, then number in the series, then title.
pub open spec fn by_author_key(b: BookEntry) -> KeyView {
    KeyView {
        first: if b.authors@.len() > 0 { text::lower(first_author(b)) } else { Seq::empty() },
        second: Seq::empty(),
        number: series_number(b),
        last: title_key(b.title@),
    }
}

/// The heading of books without an author.
pub const UNKNOWN_AUTHOR: &'static str = "Unknown author";

/// The heading of a book in the list of authors.
pub open spec fn author_heading(b: BookEntry) -> Seq<char> {
    if b.authors@.len() > 0 {
        b.authors@[0]@
    } else {
        UNKNOWN_AUTHOR@
    }
}

/// Series order: by series whatever the case, then by its very name, then number in it, then
/// title.
pub open spec fn by_series_key(b: BookEntry) -> KeyView {
    KeyView {
        first: text::lower(series_name(b)),
        second: series_name(b),
        number: series_number(b),
        last: title_key(b.title@),
    }
}

/// Order by a number alone.
pub open spec fn number_key(n: int) -> KeyView {
    KeyView { first: Seq::empty(), second: Seq::empty(), number: n, last: Seq::empty() }
}

/// The day a book was finished; 0 if it was not.
pub open spec fn finished_day(b: BookEntry) -> int {
    match b.stats.finished {
        Some(d) => d as int,
        None => 0,
    }
}

/// The items at the given positions.
pub open spec fn picked(books: Seq<BookEntry>, idx: Seq<int>) -> Seq<BookEntry> {
    idx.map_values(|i: int| books[i])
}

/// What a list of borrowed books holds.
pub open spec fn entries(v: Seq<&BookEntry>) -> Seq<BookEntry> {
    v.map_values(|b: &BookEntry| *b)
}

/// Whether `list` is the books that are kept, each once, in the order of their keys, those with
/// the same key as they stand in the index.
pub open spec fn is_listing(
    books: Seq<BookEntry>,
    keep: spec_fn(BookEntry) -> bool,
    key: spec_fn(BookEntry) -> KeyView,
    list: Seq<BookEntry>,
) -> bool {
    exists|idx: Seq<int>| #[trigger]
        order::in_order(books.map_values(key), books.map_values(keep), idx) && list == picked(books, idx)
}

/// There is only one such list.
pub proof fn law_one_listing(
    books: Seq<BookEntry>,
    keep: spec_fn(BookEntry) -> bool,
    key: spec_fn(BookEntry) -> KeyView,
    a: Seq<BookEntry>,
    b: Seq<BookEntry>,
)
    requires
        is_listing(books, keep, key, a),
        is_listing(books, keep, key, b),
    ensures
        a == b,
{
    let ks = books.map_values(key);
    let kp = books.map_values(keep);
    let x = choose|idx: Seq<int>| #[trigger] order::in_order(ks, kp, idx) && a == picked(books, idx);
    let y = choose|idx: Seq<int>| #[trigger] order::in_order(ks, kp, idx) && b == picked(books, idx);
    order::law_one_order(ks, kp, x, y);
}

/// A listed book is one of the index that is kept, and every kept book is listed.
pub proof fn law_listing_is_complete(
    books: Seq<BookEntry>,
    keep: spec_fn(BookEntry) -> bool,
    key: spec_fn(BookEntry) -> KeyView,
    list: Seq<BookEntry>,
)
    requires
        is_listing(books, keep, key, list),
    ensures
        forall|k: int| 0 <= k < list.len() ==> books.contains(#[trigger] list[k]) && keep(list[k]),
        forall|i: int| 0 <= i < books.len() && keep(#[trigger] books[i]) ==> list.contains(books[i]),
{
    let ks = books.map_values(key);
    let kp = books.map_values(keep);
    let idx = choose|idx: Seq<int>| #[trigger] order::in_order(ks, kp, idx) && list == picked(books, idx);
    assert forall|k: int| 0 <= k < list.len() implies books.contains(#[trigger] list[k]) && keep(list[k]) by {
        assert(kp[idx[k]]);
        assert(list[k] == books[idx[k]]);
    }
    assert forall|i: int| 0 <= i < books.len() && keep(#[trigger] books[i]) implies list.contains(books[i]) by {
        assert(kp[i]);
        let k = choose|k: int| 0 <= k < idx.len() && idx[k] == i;
        assert(list[k] == books[i]);
    }
}

/// Whether `list` is the visible books in shelf order.
pub open spec fn is_shelf_list(books: Seq<BookEntry>, list: Seq<BookEntry>) -> bool {
    is_listing(books, |b: BookEntry| !b.is_hidden(), |b: BookEntry| shelf_key(b), list)
}

/// Whether `shelf` is the shelf: the visible books in shelf order, with the first entry of the current
/// book moved to the front.
pub open spec fn is_shelf(lib: Library, shelf: Seq<BookEntry>) -> bool {
    exists|list: Seq<BookEntry>| #[trigger]
        is_shelf_list(lib.books@, list) && shelf == (match lib.current {
            Some(cur) => match spot(list, cur) {
                Some(i) => list.remove(i).insert(0, list[i]),
                None => list,
            },
            None => list,
        })
}

/// A shelf holds no more books than the index.
pub(crate) proof fn lemma_shelf_len(lib: Library, shelf: Seq<BookEntry>)
    requires
        is_shelf(lib, shelf),
    ensures
        shelf.len() <= lib.books@.len(),
{
    let shown = |list: Seq<BookEntry>|
        match lib.current {
            Some(cur) => match spot(list, cur) {
                Some(i) => list.remove(i).insert(0, list[i]),
                None => list,
            },
            None => list,
        };
    let list = choose|list: Seq<BookEntry>| #[trigger] is_shelf_list(lib.books@, list) && shelf == shown(list);
    if let Some(cur) = lib.current {
        lemma_spot_any(list, cur);
    }
    let keep = lib.books@.map_values(|b: BookEntry| !b.is_hidden());
    let keys = lib.books@.map_values(|b: BookEntry| shelf_key(b));
    let idx = choose|idx: Seq<int>| #[trigger] order::in_order(keys, keep, idx) && list == picked(lib.books@, idx);
    order::lemma_order_len(keys, keep, idx);
}

/// There is only one shelf.
pub proof fn law_one_shelf(lib: Library, a: Seq<BookEntry>, b: Seq<BookEntry>)
    requires
        is_shelf(lib, a),
        is_shelf(lib, b),
    ensures
        a == b,
{
    let shown = |list: Seq<BookEntry>|
        match lib.current {
            Some(cur) => match spot(list, cur) {
                Some(i) => list.remove(i).insert(0, list[i]),
                None => list,
            },
            None => list,
        };
    let x = choose|list: Seq<BookEntry>| #[trigger] is_shelf_list(lib.books@, list) && a == shown(list);
    let y = choose|list: Seq<BookEntry>| #[trigger] is_shelf_list(lib.books@, list) && b == shown(list);
    law_one_listing(lib.books@, |b: BookEntry| !b.is_hidden(), |b: BookEntry| shelf_key(b), x, y);
}

/// Whether `list` is the visible books by title.
pub open spec fn is_title_list(books: Seq<BookEntry>, list: Seq<BookEntry>) -> bool {
    is_listing(books, |b: BookEntry| !b.is_hidden(), |b: BookEntry| by_title_key(b), list)
}

/// Whether `list` is the visible books by author.
pub open spec fn is_author_list(books: Seq<BookEntry>, list: Seq<BookEntry>) -> bool {
    is_listing(books, |b: BookEntry| !b.is_hidden(), |b: BookEntry| by_author_key(b), list)
}

/// Whether `list` is the visible books of a series by series.
pub open spec fn is_series_list(books: Seq<BookEntry>, list: Seq<BookEntry>) -> bool {
    is_listing(books, |b: BookEntry| !b.is_hidden() && b.series is Some, |b: BookEntry| by_series_key(b), list)
}

/// Whether `list` is the visible books of a collection by title.
pub open spec fn is_collection_list(books: Seq<BookEntry>, id: u16, list: Seq<BookEntry>) -> bool {
    is_listing(
        books,
        |b: BookEntry| !b.is_hidden() && b.collections@.contains(id),
        |b: BookEntry| by_title_key(b),
        list,
    )
}

/// Whether `list` is the books still to be converted, oldest first.
pub open spec fn is_pending_list(books: Seq<BookEntry>, list: Seq<BookEntry>) -> bool {
    is_listing(
        books,
        |b: BookEntry| !b.missing && b.ingest == IngestState::Pending,
        |b: BookEntry| number_key(b.added as int),
        list,
    )
}

/// Whether `list` is the books finished on a day in the range, in the order of the days.
pub open spec fn is_finished_list(books: Seq<BookEntry>, from: u16, to: u16, list: Seq<BookEntry>) -> bool {
    is_listing(
        books,
        |b: BookEntry| b.stats.finished matches Some(d) && from <= d <= to,
        |b: BookEntry| number_key(finished_day(b)),
        list,
    )
}

/// The books at the given positions.
fn pick<'a>(books: &'a Vec<BookEntry>, idx: &Vec<usize>) -> (r: Vec<&'a BookEntry>)
    requires
        forall|k: int| 0 <= k < idx@.len() ==> #[trigger] idx@[k] < books@.len(),
    ensures
        entries(r@) == picked(books@, order::positions(idx@)),
{
    let mut r: Vec<&'a BookEntry> = Vec::new();
    let mut k: usize = 0;
    while k < idx.len()
        invariant
            k <= idx@.len(),
            r@.len() == k,
            forall|j: int| 0 <= j < idx@.len() ==> #[trigger] idx@[j] < books@.len(),
            forall|j: int| 0 <= j < k ==> *#[trigger] r@[j] == books@[idx@[j] as int],
        decreases idx@.len() - k,
    {
        assert(idx@[k as int] < books@.len());
        r.push(&books[idx[k]]);
        k += 1;
    }
    assert(entries(r@) =~= picked(books@, order::positions(idx@)));
    r
}

/// The kept books in the order of their keys.
fn arranged<'a>(
    books: &'a Vec<BookEntry>,
    keep: &Vec<bool>,
    keys: &Vec<SortKey>,
    Ghost(keep_if): Ghost<spec_fn(BookEntry) -> bool>,
    Ghost(key_of): Ghost<spec_fn(BookEntry) -> KeyView>,
) -> (r: Vec<&'a BookEntry>)
    requires
        keep@ == books@.map_values(keep_if),
        order::key_views(keys@) == books@.map_values(key_of),
    ensures
        is_listing(books@, keep_if, key_of, entries(r@)),
{
    assert(order::key_views(keys@).len() == keys@.len());
    let idx = order::order(keys, keep);
    let ghost ps = order::positions(idx@);
    assert forall|k: int| 0 <= k < idx@.len() implies #[trigger] idx@[k] < books@.len() by {
        assert(ps[k] == idx@[k]);
    }
    let r = pick(books, &idx);
    assert(order::in_order(books@.map_values(key_of), books@.map_values(keep_if), ps));
    r
}

impl Library {
    /// Which books may stand on a shelf.
    fn visible(&self) -> (keep: Vec<bool>)
        ensures
            keep@ == self.books@.map_values(|b: BookEntry| !b.is_hidden()),
    {
        let mut keep: Vec<bool> = Vec::new();
        let mut i: usize = 0;
        while i < self.books.len()
            invariant
                i <= self.books@.len(),
                keep@ == self.books@.take(i as int).map_values(|b: BookEntry| !b.is_hidden()),
            decreases self.books@.len() - i,
        {
            keep.push(!self.books[i].hidden());
            i += 1;
            assert(keep@ =~= self.books@.take(i as int).map_values(|b: BookEntry| !b.is_hidden()));
        }
        assert(self.books@.take(i as int) =~= self.books@);
        keep
    }

    /// The title keys of all books.
    fn title_keys(&self) -> (keys: Vec<SortKey>)
        ensures
            order::key_views(keys@) == self.books@.map_values(|b: BookEntry| by_title_key(b)),
    {
        let mut keys: Vec<SortKey> = Vec::new();
        let mut i: usize = 0;
        while i < self.books.len()
            invariant
                i <= self.books@.len(),
                keys@.len() == i,
                forall|j: int| 0 <= j < i ==> (#[trigger] keys@[j])@ == by_title_key(self.books@[j]),
            decreases self.books@.len() - i,
        {
            let k = SortKey { first: String::new(), second: String::new(), number: 0, last: sort_title(&self.books[i].title) };
            assert(k@ == by_title_key(self.books@[i as int]));
            keys.push(k);
            i += 1;
        }
        assert(order::key_views(keys@) =~= self.books@.map_values(|b: BookEntry| by_title_key(b)));
        keys
    }

    /// Books ordered for the shelf: current first, then by recency.
    pub fn shelf(&self) -> (r: Vec<&BookEntry>)
        ensures
            is_shelf(*self, entries(r@)),
    {
        let keep = self.visible();
        let mut keys: Vec<SortKey> = Vec::new();
        let mut i: usize = 0;
        while i < self.books.len()
            invariant
                i <= self.books@.len(),
                keys@.len() == i,
                forall|j: int| 0 <= j < i ==> (#[trigger] keys@[j])@ == shelf_key(self.books@[j]),
            decreases self.books@.len() - i,
        {
            let b = &self.books[i];
            let k = SortKey { first: String::new(), second: String::new(), number: u32::MAX - b.recency(), last: b.title.clone() };
            assert(k@ == shelf_key(*b));
            keys.push(k);
            i += 1;
        }
        assert(order::key_views(keys@) =~= self.books@.map_values(|b: BookEntry| shelf_key(b)));
        let mut v = arranged(
            &self.books,
            &keep,
            &keys,
            Ghost(|b: BookEntry| !b.is_hidden()),
            Ghost(|b: BookEntry| shelf_key(b)),
        );
        let ghost list = entries(v@);
        assert(is_shelf_list(self.books@, list));
        if let Some(cur) = self.current {
            let mut j: usize = 0;
            while j < v.len()
                invariant
                    j <= v@.len(),
                    list == entries(v@),
                    self.current == Some(cur),
                    is_shelf_list(self.books@, list),
                    forall|k: int| 0 <= k < j ==> (#[trigger] list[k]).id != cur,
                decreases v@.len() - j,
            {
                if v[j].id == cur {
                    assert(is_first(list, cur, j as int));
                    assert(spot(list, cur) == Some(j as int)) by {
                        let k = spot(list, cur)->0;
                        assert(is_first(list, cur, k));
                        assert(list[k].id == cur && list[j as int].id == cur);
                    }
                    let b = v.remove(j);
                    v.insert(0, b);
                    assert(entries(v@) =~= list.remove(j as int).insert(0, list[j as int]));
                    return v;
                }
                assert(list[j as int].id != cur);
                j += 1;
            }
            assert(spot(list, cur) is None);
        }
        v
    }

    /// Books by title.
    pub fn by_title(&self) -> (r: Vec<&BookEntry>)
        ensures
            is_title_list(self.books@, entries(r@)),
    {
        let keep = self.visible();
        let keys = self.title_keys();
        arranged(
            &self.books,
            &keep,
            &keys,
            Ghost(|b: BookEntry| !b.is_hidden()),
            Ghost(|b: BookEntry| by_title_key(b)),
        )
    }

    /// Books by author, then series index, then title.
    pub fn by_author(&self) -> (r: Vec<&BookEntry>)
        ensures
            is_author_list(self.books@, entries(r@)),
    {
        let keep = self.visible();
        let mut keys: Vec<SortKey> = Vec::new();
        let mut i: usize = 0;
        while i < self.books.len()
            invariant
                i <= self.books@.len(),
                keys@.len() == i,
                forall|j: int| 0 <= j < i ==> (#[trigger] keys@[j])@ == by_author_key(self.books@[j]),
            decreases self.books@.len() - i,
        {
            let b = &self.books[i];
            let first = if b.authors.len() > 0 { text::to_lowercase(&b.authors[0]) } else { String::new() };
            let number: u32 = match &b.series {
                Some(s) => s.1 as u32,
                None => 0,
            };
            let k = SortKey { first, second: String::new(), number, last: sort_title(&b.title) };
            assert(k@ == by_author_key(*b));
            keys.push(k);
            i += 1;
        }
        assert(order::key_views(keys@) =~= self.books@.map_values(|b: BookEntry| by_author_key(b)));
        arranged(
            &self.books,
            &keep,
            &keys,
            Ghost(|b: BookEntry| !b.is_hidden()),
            Ghost(|b: BookEntry| by_author_key(b)),
        )
    }

    /// Books in a collection, by title.
    pub fn in_collection(&self, id: u16) -> (r: Vec<&BookEntry>)
        ensures
            is_collection_list(self.books@, id, entries(r@)),
    {
        let ghost keep_if = |b: BookEntry| !b.is_hidden() && b.collections@.contains(id);
        let mut keep: Vec<bool> = Vec::new();
        let mut i: usize = 0;
        while i < self.books.len()
            invariant
                i <= self.books@.len(),
                keep_if == (|b: BookEntry| !b.is_hidden() && b.collections@.contains(id)),
                keep@ == self.books@.take(i as int).map_values(keep_if),
            decreases self.books@.len() - i,
        {
            let b = &self.books[i];
            keep.push(!b.hidden() && holds(&b.collections, id));
            i += 1;
            assert(keep@ =~= self.books@.take(i as int).map_values(keep_if));
        }
        assert(self.books@.take(i as int) =~= self.books@);
        let keys = self.title_keys();
        arranged(&self.books, &keep, &keys, Ghost(keep_if), Ghost(|b: BookEntry| by_title_key(b)))
    }

    /// Books pending ingest, oldest first.
    pub fn pending(&self) -> (r: Vec<BookId>)
        ensures
            exists|list: Seq<BookEntry>| #[trigger]
                is_pending_list(self.books@, list) && r@ == list.map_values(|b: BookEntry| b.id),
    {
        let ghost keep_if = |b: BookEntry| !b.missing && b.ingest == IngestState::Pending;
        let ghost key_of = |b: BookEntry| number_key(b.added as int);
        let mut keep: Vec<bool> = Vec::new();
        let mut keys: Vec<SortKey> = Vec::new();
        let mut i: usize = 0;
        while i < self.books.len()
            invariant
                i <= self.books@.len(),
                keep_if == (|b: BookEntry| !b.missing && b.ingest == IngestState::Pending),
                key_of == (|b: BookEntry| number_key(b.added as int)),
                keep@ == self.books@.take(i as int).map_values(keep_if),
                keys@.len() == i,
                forall|j: int| 0 <= j < i ==> (#[trigger] keys@[j])@ == number_key(self.books@[j].added as int),
            decreases self.books@.len() - i,
        {
            let b = &self.books[i];
            keep.push(!b.missing && b.ingest == IngestState::Pending);
            let k = SortKey { first: String::new(), second: String::new(), number: b.added, last: String::new() };
            assert(k@ == number_key(b.added as int));
            keys.push(k);
            i += 1;
            assert(keep@ =~= self.books@.take(i as int).map_values(keep_if));
        }
        assert(self.books@.take(i as int) =~= self.books@);
        assert(order::key_views(keys@) =~= self.books@.map_values(key_of));
        let v = arranged(&self.books, &keep, &keys, Ghost(keep_if), Ghost(key_of));
        let ghost list = entries(v@);
        assert(is_pending_list(self.books@, list));
        let mut ids: Vec<BookId> = Vec::new();
        let mut j: usize = 0;
        while j < v.len()
            invariant
                j <= v@.len(),
                list == entries(v@),
                ids@.len() == j,
                forall|k: int| 0 <= k < j ==> #[trigger] ids@[k] == list[k].id,
            decreases v@.len() - j,
        {
            ids.push(v[j].id);
            j += 1;
        }
        assert(ids@ =~= list.map_values(|b: BookEntry| b.id));
        ids
    }

    /// Books finished in a day range (inclusive).
    pub fn finished_between(&self, from: u16, to: u16) -> (r: Vec<&BookEntry>)
        ensures
            is_finished_list(self.books@, from, to, entries(r@)),
    {
        let ghost keep_if = |b: BookEntry| b.stats.finished matches Some(d) && from <= d <= to;
        let ghost key_of = |b: BookEntry| number_key(finished_day(b));
        let mut keep: Vec<bool> = Vec::new();
        let mut keys: Vec<SortKey> = Vec::new();
        let mut i: usize = 0;
        while i < self.books.len()
            invariant
                i <= self.books@.len(),
                keep_if == (|b: BookEntry| b.stats.finished matches Some(d) && from <= d <= to),
                key_of == (|b: BookEntry| number_key(finished_day(b))),
                keep@ == self.books@.take(i as int).map_values(keep_if),
                keys@.len() == i,
                forall|j: int| 0 <= j < i ==> (#[trigger] keys@[j])@ == number_key(finished_day(self.books@[j])),
            decreases self.books@.len() - i,
        {
            let b = &self.books[i];
            let mut within = false;
            let mut day: u32 = 0;
            if let Some(d) = b.stats.finished {
                within = from <= d && d <= to;
                day = d as u32;
            }
            keep.push(within);
            let k = SortKey { first: String::new(), second: String::new(), number: day, last: String::new() };
            assert(k@ == number_key(finished_day(*b)));
            keys.push(k);
            i += 1;
            assert(keep@ =~= self.books@.take(i as int).map_values(keep_if));
        }
        assert(self.books@.take(i as int) =~= self.books@);
        assert(order::key_views(keys@) =~= self.books@.map_values(key_of));
        arranged(&self.books, &keep, &keys, Ghost(keep_if), Ghost(key_of))
    }
}

/// Whether a list holds a number.
fn holds(v: &Vec<u16>, x: u16) -> (r: bool)
    ensures
        r == v@.contains(x),
{
    let mut i: usize = 0;
    while i < v.len()
        invariant
            i <= v@.len(),
            forall|j: int| 0 <= j < i ==> v@[j] != x,
        decreases v@.len() - i,
    {
        if v[i] == x {
            assert(v@.contains(v@[i as int]));
            return true;
        }
        i += 1;
    }
    false
}

/// Removes every occurrence of a number from a list.
fn drop_number(v: &mut Vec<u16>, x: u16)
    ensures
        final(v)@ == old(v)@.filter(|c: u16| c != x),
{
    let ghost all = v@;
    let ghost keep_if = |c: u16| c != x;
    let mut kept: Vec<u16> = Vec::new();
    let mut i: usize = 0;
    proof {
        reveal(Seq::filter);
        assert(kept@ =~= all.take(0).filter(keep_if));
    }
    while i < v.len()
        invariant
            i <= v@.len(),
            v@ == all,
            keep_if == (|c: u16| c != x),
            kept@ == all.take(i as int).filter(keep_if),
        decreases v@.len() - i,
    {
        proof {
            reveal(Seq::filter);
            assert(all.take(i + 1).drop_last() =~= all.take(i as int));
        }
        if v[i] != x {
            kept.push(v[i]);
        }
        i += 1;
    }
    assert(all.take(i as int) =~= all);
    *v = kept;
}

/// Where the first occurrence of a number stands in a list.
fn number_at(v: &Vec<u16>, x: u16) -> (r: Option<usize>)
    ensures
        r is Some <==> v@.contains(x),
        r matches Some(i) ==> i < v@.len() && v@[i as int] == x && forall|j: int| 0 <= j < i ==> v@[j] != x,
{
    let mut i: usize = 0;
    while i < v.len()
        invariant
            i <= v@.len(),
            forall|j: int| 0 <= j < i ==> v@[j] != x,
        decreases v@.len() - i,
    {
        if v[i] == x {
            assert(v@.contains(v@[i as int]));
            return Some(i);
        }
        i += 1;
    }
    None
}

/// A list of books under a heading, as it is seen.
pub open spec fn group_view(g: (String, Vec<&BookEntry>)) -> (Seq<char>, Seq<BookEntry>) {
    (g.0@, entries(g.1@))
}

/// Lists under headings, as they are seen.
pub open spec fn group_views(v: Seq<(String, Vec<&BookEntry>)>) -> Seq<(Seq<char>, Seq<BookEntry>)> {
    v.map_values(|g: (String, Vec<&BookEntry>)| group_view(g))
}

/// A list parted under headings: a book whose heading says the same as that of the last group
/// joins it, any other starts a group.
pub open spec fn grouped(
    list: Seq<BookEntry>,
    heading: spec_fn(BookEntry) -> Seq<char>,
    says: spec_fn(Seq<char>) -> Seq<char>,
) -> Seq<(Seq<char>, Seq<BookEntry>)>
    decreases list.len(),
{
    if list.len() == 0 {
        Seq::empty()
    } else {
        let before = grouped(list.drop_last(), heading, says);
        let b = list.last();
        if before.len() > 0 && says(before.last().0) == says(heading(b)) {
            before.drop_last().push((before.last().0, before.last().1.push(b)))
        } else {
            before.push((heading(b), seq![b]))
        }
    }
}

/// Whose a book is in the list of authors: nobody's, or its first author's, whose name says the
/// same in either case.
pub open spec fn author_of(b: BookEntry) -> Option<Seq<char>> {
    if b.authors@.len() > 0 {
        Some(text::ascii_lower(b.authors@[0]@))
    } else {
        None
    }
}

/// The last of the first `n` groups that began with a book of this author, if there is one.
pub open spec fn group_of(groups: Seq<(Seq<char>, Seq<BookEntry>)>, who: Option<Seq<char>>, n: int) -> Option<int>
    decreases n,
{
    if n <= 0 {
        None
    } else if author_of(groups[n - 1].1[0]) == who {
        Some(n - 1)
    } else {
        group_of(groups, who, n - 1)
    }
}

/// The group a book joins: the last, if it goes by the book's heading, else that of its author.
pub open spec fn joined_group(groups: Seq<(Seq<char>, Seq<BookEntry>)>, b: BookEntry) -> Option<int> {
    if groups.len() > 0 && text::ascii_lower(groups.last().0) == text::ascii_lower(author_heading(b)) {
        Some(groups.len() - 1)
    } else {
        group_of(groups, author_of(b), groups.len() as int)
    }
}

/// Groups with one more book: in group `at`, or in a new one of this name.
pub open spec fn filed(
    groups: Seq<(Seq<char>, Seq<BookEntry>)>,
    at: Option<int>,
    name: Seq<char>,
    b: BookEntry,
) -> Seq<(Seq<char>, Seq<BookEntry>)> {
    match at {
        Some(g) => groups.update(g, (groups[g].0, groups[g].1.push(b))),
        None => groups.push((name, seq![b])),
    }
}

/// The books under their authors, in the order of the list: one group for each author.
pub open spec fn author_groups(list: Seq<BookEntry>) -> Seq<(Seq<char>, Seq<BookEntry>)>
    decreases list.len(),
{
    if list.len() == 0 {
        Seq::empty()
    } else {
        let before = author_groups(list.drop_last());
        let b = list.last();
        filed(before, joined_group(before, b), author_heading(b), b)
    }
}

/// The books under their series: one group for each name.
pub open spec fn series_groups(list: Seq<BookEntry>) -> Seq<(Seq<char>, Seq<BookEntry>)> {
    grouped(list, |b: BookEntry| series_name(b), |name: Seq<char>| name)
}

/// Putting a list's groups together again gives the list.
pub open spec fn ungrouped(groups: Seq<(Seq<char>, Seq<BookEntry>)>) -> Seq<BookEntry>
    decreases groups.len(),
{
    if groups.len() == 0 {
        Seq::empty()
    } else {
        ungrouped(groups.drop_last()) + groups.last().1
    }
}

/// Grouping loses nothing and keeps the order: the groups one after the other are the list, and
/// none of them is empty.
pub proof fn law_groups_hold_the_list(
    list: Seq<BookEntry>,
    heading: spec_fn(BookEntry) -> Seq<char>,
    says: spec_fn(Seq<char>) -> Seq<char>,
)
    ensures
        ungrouped(grouped(list, heading, says)) == list,
        forall|i: int| 0 <= i < grouped(list, heading, says).len() ==> (#[trigger] grouped(list, heading, says)[i]).1.len() > 0,
    decreases list.len(),
{
    let g = grouped(list, heading, says);
    if list.len() == 0 {
        assert(ungrouped(g) =~= list);
    } else {
        law_groups_hold_the_list(list.drop_last(), heading, says);
        let before = grouped(list.drop_last(), heading, says);
        let b = list.last();
        if before.len() > 0 && says(before.last().0) == says(heading(b)) {
            assert(g.drop_last() =~= before.drop_last());
            assert(ungrouped(g) =~= ungrouped(before).push(b));
        } else {
            assert(g.drop_last() =~= before);
            assert(ungrouped(g) =~= ungrouped(before).push(b));
        }
        assert(list.drop_last().push(b) =~= list);
        assert forall|i: int| 0 <= i < g.len() implies (#[trigger] g[i]).1.len() > 0 by {
            if i < before.len() {
                assert(before[i].1.len() > 0);
            }
        }
    }
}

/// Whether a book stands in group `g`.
pub open spec fn stands_in(groups: Seq<(Seq<char>, Seq<BookEntry>)>, b: BookEntry, g: int) -> bool {
    0 <= g < groups.len() && groups[g].1.contains(b)
}

/// Whether a book stands in a group at all.
pub open spec fn stands(groups: Seq<(Seq<char>, Seq<BookEntry>)>, b: BookEntry) -> bool {
    exists|g: int| stands_in(groups, b, g)
}

proof fn lemma_stands_somewhere(groups: Seq<(Seq<char>, Seq<BookEntry>)>, b: BookEntry)
    requires
        ungrouped(groups).contains(b),
    ensures
        stands(groups, b),
    decreases groups.len(),
{
    let (rest, last) = (ungrouped(groups.drop_last()), groups.last().1);
    let k = choose|k: int| 0 <= k < ungrouped(groups).len() && ungrouped(groups)[k] == b;
    if k < rest.len() {
        assert(rest[k] == b);
        lemma_stands_somewhere(groups.drop_last(), b);
        let g = choose|g: int| stands_in(groups.drop_last(), b, g);
        assert(groups.drop_last()[g] == groups[g]);
        assert(stands_in(groups, b, g));
    } else {
        assert(last[k - rest.len()] == b);
        assert(stands_in(groups, b, groups.len() - 1));
    }
}

/// Whether two books have the same texts in front of their keys.
spec fn same_front(key: spec_fn(BookEntry) -> KeyView, a: BookEntry, b: BookEntry) -> bool {
    key(a).first == key(b).first && key(a).second == key(b).second
}

/// Whether the texts in front of one book's key sort before those of another's.
spec fn front_before(key: spec_fn(BookEntry) -> KeyView, a: BookEntry, b: BookEntry) -> bool {
    order::text_before(key(a).first, key(b).first) || (key(a).first == key(b).first && order::text_before(
        key(a).second,
        key(b).second,
    ))
}

/// What holds of a group: it has a book, its name is the heading of the first, and all its books
/// have the same texts in front of their keys.
spec fn is_group(
    heading: spec_fn(BookEntry) -> Seq<char>,
    says: spec_fn(Seq<char>) -> Seq<char>,
    key: spec_fn(BookEntry) -> KeyView,
    g: (Seq<char>, Seq<BookEntry>),
) -> bool {
    &&& g.1.len() > 0
    &&& g.0 == heading(g.1[0])
    &&& key(g.1[0]).second == says(g.0)
    &&& forall|k: int| 0 <= k < g.1.len() ==> same_front(key, #[trigger] g.1[k], g.1[0])
    &&& forall|k: int| 0 <= k < g.1.len() ==> says(heading(#[trigger] g.1[k])) == says(g.0)
}

proof fn lemma_groups_in_order(
    list: Seq<BookEntry>,
    heading: spec_fn(BookEntry) -> Seq<char>,
    says: spec_fn(Seq<char>) -> Seq<char>,
    key: spec_fn(BookEntry) -> KeyView,
)
    requires
        forall|i: int, j: int| 0 <= i < j < list.len() ==> !order::key_before(#[trigger] key(list[j]), #[trigger] key(list[i])),
        forall|i: int| 0 <= i < list.len() ==> (#[trigger] key(list[i])).second == says(heading(list[i])),
        forall|i: int, j: int|
            0 <= i < list.len() && 0 <= j < list.len() && (#[trigger] key(list[i])).second == (#[trigger] key(list[j])).second
                ==> key(list[i]).first == key(list[j]).first,
    ensures
        list.len() > 0 ==> grouped(list, heading, says).len() > 0 && same_front(
            key,
            list.last(),
            grouped(list, heading, says).last().1[0],
        ),
        forall|i: int| 0 <= i < grouped(list, heading, says).len() ==> is_group(heading, says, key, #[trigger] grouped(list, heading, says)[i]),
        forall|i: int, j: int|
            0 <= i < j < grouped(list, heading, says).len() ==> front_before(
                key,
                (#[trigger] grouped(list, heading, says)[i]).1[0],
                (#[trigger] grouped(list, heading, says)[j]).1[0],
            ),
    decreases list.len(),
{
    let g = grouped(list, heading, says);
    if list.len() > 0 {
        let rest = list.drop_last();
        let n = rest.len() as int;
        assert forall|i: int| 0 <= i < n implies rest[i] == list[i] by {}
        lemma_groups_in_order(rest, heading, says, key);
        let before = grouped(rest, heading, says);
        let b = list.last();
        assert(b == list[n]);
        assert(key(list[n]).second == says(heading(list[n])));
        if n > 0 {
            let l = list[n - 1];
            let m = before.len() - 1;
            assert(rest.last() == l);
            assert(is_group(heading, says, key, before[m]));
            assert(key(l).second == says(before[m].0));
            if says(before.last().0) == says(heading(b)) {
                assert(key(list[n]).second == key(list[n - 1]).second);
                assert(same_front(key, b, before[m].1[0]));
                assert(g[m].1 =~= before[m].1.push(b));
                assert(is_group(heading, says, key, g[m])) by {
                    assert forall|k: int| 0 <= k < g[m].1.len() implies same_front(key, #[trigger] g[m].1[k], g[m].1[0]) by {
                        if k < before[m].1.len() {
                            assert(same_front(key, before[m].1[k], before[m].1[0]));
                        }
                    }
                    assert forall|k: int| 0 <= k < g[m].1.len() implies says(heading(#[trigger] g[m].1[k])) == says(g[m].0) by {
                        if k < before[m].1.len() {
                            assert(says(heading(before[m].1[k])) == says(before[m].0));
                        }
                    }
                }
                assert forall|i: int| 0 <= i < g.len() implies is_group(heading, says, key, #[trigger] g[i]) by {
                    if i < m {
                        assert(g[i] == before[i]);
                    }
                }
                assert forall|i: int, j: int| 0 <= i < j < g.len() implies front_before(key, (#[trigger] g[i]).1[0], (#[trigger] g[j]).1[0]) by {
                    assert(front_before(key, before[i].1[0], before[j].1[0]));
                }
            } else {
                assert(!order::key_before(key(list[n]), key(list[n - 1])));
                order::lemma_front(key(l), key(b));
                assert(front_before(key, l, b));
                assert(g[m + 1] == (heading(b), seq![b]));
                assert forall|i: int| 0 <= i < g.len() implies is_group(heading, says, key, #[trigger] g[i]) by {
                    if i <= m {
                        assert(g[i] == before[i]);
                    }
                }
                assert forall|i: int, j: int| 0 <= i < j < g.len() implies front_before(key, (#[trigger] g[i]).1[0], (#[trigger] g[j]).1[0]) by {
                    if j <= m {
                        assert(front_before(key, before[i].1[0], before[j].1[0]));
                    } else if i < m {
                        assert(front_before(key, before[i].1[0], before[m].1[0]));
                        order::lemma_fronts(key(before[i].1[0]), key(before[m].1[0]), key(b));
                    }
                }
            }
        } else {
            assert(g =~= seq![(heading(b), seq![b])]);
        }
    }
}

/// A list in order has no two books the wrong way round.
proof fn lemma_listing_in_order(
    books: Seq<BookEntry>,
    keep: spec_fn(BookEntry) -> bool,
    key: spec_fn(BookEntry) -> KeyView,
    list: Seq<BookEntry>,
)
    requires
        is_listing(books, keep, key, list),
    ensures
        forall|i: int, j: int| 0 <= i < j < list.len() ==> !order::key_before(#[trigger] key(list[j]), #[trigger] key(list[i])),
{
    let ks = books.map_values(key);
    let kp = books.map_values(keep);
    let idx = choose|idx: Seq<int>| #[trigger] order::in_order(ks, kp, idx) && list == picked(books, idx);
    assert forall|i: int, j: int| 0 <= i < j < list.len() implies !order::key_before(#[trigger] key(list[j]), #[trigger] key(list[i])) by {
        assert(0 <= idx[i] < kp.len() && 0 <= idx[j] < kp.len());
        assert(order::comes_before(ks, idx[i], idx[j]));
        assert(list[i] == books[idx[i]] && list[j] == books[idx[j]]);
        order::lemma_one_way(key(list[i]), key(list[j]));
    }
}

/// How many books the first `n` groups hold together.
pub open spec fn books_in(groups: Seq<(Seq<char>, Seq<BookEntry>)>, n: int) -> nat
    decreases n,
{
    if n <= 0 {
        0
    } else {
        books_in(groups, n - 1) + groups[n - 1].1.len()
    }
}

proof fn lemma_books_in(a: Seq<(Seq<char>, Seq<BookEntry>)>, b: Seq<(Seq<char>, Seq<BookEntry>)>, g: int, n: int)
    requires
        0 <= n <= a.len(),
        n <= b.len(),
        forall|i: int| 0 <= i < n && i != g ==> a[i] == b[i],
        0 <= g < n ==> b[g].1.len() == a[g].1.len() + 1,
    ensures
        books_in(b, n) == books_in(a, n) + (if 0 <= g < n { 1nat } else { 0 }),
    decreases n,
{
    if n > 0 {
        lemma_books_in(a, b, g, n - 1);
    }
}

proof fn lemma_group_of(groups: Seq<(Seq<char>, Seq<BookEntry>)>, who: Option<Seq<char>>, n: int)
    requires
        0 <= n <= groups.len(),
    ensures
        group_of(groups, who, n) matches Some(g) ==> 0 <= g < n && author_of(groups[g].1[0]) == who,
        group_of(groups, who, n) is None ==> forall|g: int| 0 <= g < n ==> author_of((#[trigger] groups[g]).1[0]) != who,
    decreases n,
{
    if n > 0 {
        lemma_group_of(groups, who, n - 1);
    }
}

/// What holds of an author's group: it has a book, goes by the heading of the first, and the
/// others have the same, whatever its ASCII case.
pub open spec fn is_author_group(g: (Seq<char>, Seq<BookEntry>)) -> bool {
    &&& g.1.len() > 0
    &&& g.0 == author_heading(g.1[0])
    &&& forall|k: int| 0 <= k < g.1.len() ==> text::ascii_lower(author_heading(#[trigger] g.1[k])) == text::ascii_lower(g.0)
}

proof fn lemma_author_groups(list: Seq<BookEntry>)
    ensures
        forall|i: int| 0 <= i < author_groups(list).len() ==> is_author_group(#[trigger] author_groups(list)[i]),
        forall|i: int, k: int|
            0 <= i < author_groups(list).len() && 0 <= k < author_groups(list)[i].1.len() ==> list.contains(
                #[trigger] author_groups(list)[i].1[k],
            ),
        forall|i: int, j: int|
            0 <= i < j < author_groups(list).len() ==> author_of((#[trigger] author_groups(list)[i]).1[0]) != author_of(
                (#[trigger] author_groups(list)[j]).1[0],
            ),
    decreases list.len(),
{
    if list.len() > 0 {
        let rest = list.drop_last();
        let b = list.last();
        let before = author_groups(rest);
        let now = author_groups(list);
        lemma_author_groups(rest);
        assert forall|i: int| 0 <= i < before.len() implies is_author_group(#[trigger] before[i]) by {}
        lemma_group_of(before, author_of(b), before.len() as int);
        lemma_joined(before, b);
        assert forall|i: int| 0 <= i < now.len() implies is_author_group(#[trigger] now[i]) by {
            if i < before.len() {
                assert(is_author_group(before[i]));
                if joined_group(before, b) == Some(i) {
                    lemma_group_grows(before[i], b);
                }
            }
        }
        assert forall|i: int, k: int| 0 <= i < now.len() && 0 <= k < now[i].1.len() implies list.contains(#[trigger] now[i].1[k]) by {
            if i < before.len() && k < before[i].1.len() {
                assert(now[i].1[k] == before[i].1[k]);
                assert(rest.contains(before[i].1[k]));
                let p = choose|p: int| 0 <= p < rest.len() && rest[p] == before[i].1[k];
                assert(list[p] == now[i].1[k]);
            } else {
                assert(now[i].1[k] == b);
                assert(list[list.len() - 1] == b);
            }
        }
        assert forall|i: int, j: int| 0 <= i < j < now.len() implies author_of((#[trigger] now[i]).1[0]) != author_of(
            (#[trigger] now[j]).1[0],
        ) by {
            assert(is_author_group(before[i]));
            assert(now[i].1[0] == before[i].1[0]);
            if j < before.len() {
                assert(is_author_group(before[j]));
                assert(now[j].1[0] == before[j].1[0]);
            } else {
                assert(now[j].1[0] == b);
            }
        }
    }
}

/// A book joins a group that goes by its heading.
proof fn lemma_joined(groups: Seq<(Seq<char>, Seq<BookEntry>)>, b: BookEntry)
    requires
        forall|i: int| 0 <= i < groups.len() ==> is_author_group(#[trigger] groups[i]),
    ensures
        joined_group(groups, b) matches Some(g) ==> 0 <= g < groups.len() && text::ascii_lower(groups[g].0)
            == text::ascii_lower(author_heading(b)),
{
    lemma_group_of(groups, author_of(b), groups.len() as int);
    if let Some(g) = joined_group(groups, b) {
        assert(is_author_group(groups[g]));
    }
}

proof fn lemma_group_grows(g: (Seq<char>, Seq<BookEntry>), b: BookEntry)
    requires
        is_author_group(g),
        text::ascii_lower(g.0) == text::ascii_lower(author_heading(b)),
    ensures
        is_author_group((g.0, g.1.push(b))),
{
    let more = g.1.push(b);
    assert(more[0] == g.1[0]);
    assert forall|k: int| 0 <= k < more.len() implies text::ascii_lower(author_heading(#[trigger] more[k])) == text::ascii_lower(
        g.0,
    ) by {
        if k < g.1.len() {
            assert(more[k] == g.1[k]);
        }
    }
}

proof fn lemma_filed(groups: Seq<(Seq<char>, Seq<BookEntry>)>, at: Option<int>, name: Seq<char>, b: BookEntry)
    requires
        at matches Some(g) ==> 0 <= g < groups.len(),
    ensures
        forall|c: BookEntry, x: int| stands_in(groups, c, x) ==> #[trigger] stands_in(filed(groups, at, name, b), c, x),
        exists|x: int| stands_in(filed(groups, at, name, b), b, x),
        books_in(filed(groups, at, name, b), filed(groups, at, name, b).len() as int) == books_in(groups, groups.len() as int) + 1,
{
    let now = filed(groups, at, name, b);
    let m = groups.len() as int;
    assert forall|c: BookEntry, x: int| stands_in(groups, c, x) implies #[trigger] stands_in(now, c, x) by {
        let k = choose|k: int| 0 <= k < groups[x].1.len() && groups[x].1[k] == c;
        assert(now[x].1[k] == c);
    }
    let x = match at {
        Some(g) => g,
        None => m,
    };
    assert(now[x].1[now[x].1.len() - 1] == b);
    assert(stands_in(now, b, x));
    lemma_books_in(groups, now, x, m);
}

#[verifier::spinoff_prover]
#[verifier::rlimit(60)]
proof fn lemma_all_filed(list: Seq<BookEntry>)
    ensures
        forall|p: int| 0 <= p < list.len() ==> stands(author_groups(list), #[trigger] list[p]),
        books_in(author_groups(list), author_groups(list).len() as int) == list.len(),
    decreases list.len(),
{
    if list.len() > 0 {
        let rest = list.drop_last();
        let b = list.last();
        let before = author_groups(rest);
        lemma_all_filed(rest);
        lemma_author_groups(rest);
        lemma_joined(before, b);
        let now = filed(before, joined_group(before, b), author_heading(b), b);
        lemma_filed(before, joined_group(before, b), author_heading(b), b);
        assert(author_groups(list) == now);
        assert forall|p: int| 0 <= p < list.len() implies stands(author_groups(list), #[trigger] list[p]) by {
            if p < rest.len() {
                assert(rest[p] == list[p]);
                let x = choose|x: int| stands_in(before, rest[p], x);
                assert(stands_in(author_groups(list), list[p], x));
            } else {
                let x = choose|x: int| stands_in(now, b, x);
                assert(list[p] == b);
                assert(stands_in(author_groups(list), list[p], x));
            }
        }
    }
}

proof fn lemma_author_groups_in_order(list: Seq<BookEntry>, key: spec_fn(BookEntry) -> KeyView)
    requires
        forall|i: int, j: int| 0 <= i < j < list.len() ==> !order::key_before(#[trigger] key(list[j]), #[trigger] key(list[i])),
    ensures
        forall|i: int, j: int|
            0 <= i < j < author_groups(list).len() ==> !order::key_before(
                key((#[trigger] author_groups(list)[j]).1[0]),
                key((#[trigger] author_groups(list)[i]).1[0]),
            ),
        forall|i: int, k: int, l: int|
            0 <= i < author_groups(list).len() && 0 <= k < l < author_groups(list)[i].1.len() ==> !order::key_before(
                key(#[trigger] author_groups(list)[i].1[l]),
                key(#[trigger] author_groups(list)[i].1[k]),
            ),
    decreases list.len(),
{
    if list.len() > 0 {
        let rest = list.drop_last();
        let n = rest.len() as int;
        let b = list.last();
        let before = author_groups(rest);
        let now = author_groups(list);
        assert forall|i: int, j: int| 0 <= i < j < rest.len() implies !order::key_before(#[trigger] key(rest[j]), #[trigger] key(rest[i])) by {
            assert(rest[i] == list[i] && rest[j] == list[j]);
        }
        lemma_author_groups_in_order(rest, key);
        lemma_author_groups(rest);
        lemma_group_of(before, author_of(b), before.len() as int);
        assert forall|x: BookEntry| rest.contains(x) implies !order::key_before(key(b), #[trigger] key(x)) by {
            let p = choose|p: int| 0 <= p < rest.len() && rest[p] == x;
            assert(list[p] == x && list[n] == b);
            assert(!order::key_before(key(list[n]), key(list[p])));
        }
        assert forall|i: int, j: int| 0 <= i < j < now.len() implies !order::key_before(
            key((#[trigger] now[j]).1[0]),
            key((#[trigger] now[i]).1[0]),
        ) by {
            assert(is_author_group(before[i]));
            assert(now[i].1[0] == before[i].1[0]);
            if j < before.len() {
                assert(is_author_group(before[j]));
                assert(now[j].1[0] == before[j].1[0]);
            } else {
                assert(now[j].1[0] == b);
                assert(rest.contains(before[i].1[0]));
            }
        }
        assert forall|i: int, k: int, l: int| 0 <= i < now.len() && 0 <= k < l < now[i].1.len() implies !order::key_before(
            key(#[trigger] now[i].1[l]),
            key(#[trigger] now[i].1[k]),
        ) by {
            if i < before.len() {
                assert(now[i].1[k] == before[i].1[k]);
                assert(rest.contains(before[i].1[k]));
                if l < before[i].1.len() {
                    assert(now[i].1[l] == before[i].1[l]);
                } else {
                    assert(now[i].1[l] == b);
                }
            }
        }
    }
}

/// Every author has one group. Two groups go by the same name, whatever its ASCII case, only where
/// the one holds the books without an author and the other those by somebody called that. The books
/// of a group have its name, and stand in order; the groups stand in the order of their first
/// books. Every visible book stands in one of them, and they hold no more books than are listed.
pub proof fn law_one_group_for_each_author(books: Seq<BookEntry>, list: Seq<BookEntry>)
    requires
        is_author_list(books, list),
    ensures
        forall|i: int, j: int|
            0 <= i < j < author_groups(list).len() ==> text::ascii_lower((#[trigger] author_groups(list)[i]).0)
                != text::ascii_lower((#[trigger] author_groups(list)[j]).0) || (author_of(author_groups(list)[i].1[0]) is None)
                != (author_of(author_groups(list)[j].1[0]) is None),
        forall|i: int| 0 <= i < author_groups(list).len() ==> is_author_group(#[trigger] author_groups(list)[i]),
        forall|i: int, j: int|
            0 <= i < j < author_groups(list).len() ==> !order::key_before(
                by_author_key((#[trigger] author_groups(list)[j]).1[0]),
                by_author_key((#[trigger] author_groups(list)[i]).1[0]),
            ),
        forall|i: int, k: int, l: int|
            0 <= i < author_groups(list).len() && 0 <= k < l < author_groups(list)[i].1.len() ==> !order::key_before(
                by_author_key(#[trigger] author_groups(list)[i].1[l]),
                by_author_key(#[trigger] author_groups(list)[i].1[k]),
            ),
        forall|i: int|
            0 <= i < books.len() && !(#[trigger] books[i]).is_hidden() ==> stands(author_groups(list), books[i]),
        books_in(author_groups(list), author_groups(list).len() as int) == list.len(),
{
    let key = |b: BookEntry| by_author_key(b);
    let keep = |b: BookEntry| !b.is_hidden();
    let g = author_groups(list);
    lemma_listing_in_order(books, keep, key, list);
    lemma_author_groups(list);
    lemma_all_filed(list);
    lemma_author_groups_in_order(list, key);
    law_listing_is_complete(books, keep, key, list);
    assert forall|i: int, j: int| 0 <= i < j < g.len() implies text::ascii_lower((#[trigger] g[i]).0) != text::ascii_lower(
        (#[trigger] g[j]).0,
    ) || (author_of(g[i].1[0]) is None) != (author_of(g[j].1[0]) is None) by {
        assert(is_author_group(g[i]) && is_author_group(g[j]));
        assert(author_of(g[i].1[0]) != author_of(g[j].1[0]));
    }
    assert forall|i: int, j: int| 0 <= i < j < g.len() implies !order::key_before(
        by_author_key((#[trigger] g[j]).1[0]),
        by_author_key((#[trigger] g[i]).1[0]),
    ) by {
        assert(!order::key_before(key(g[j].1[0]), key(g[i].1[0])));
    }
    assert forall|i: int, k: int, l: int| 0 <= i < g.len() && 0 <= k < l < g[i].1.len() implies !order::key_before(
        by_author_key(#[trigger] g[i].1[l]),
        by_author_key(#[trigger] g[i].1[k]),
    ) by {
        assert(!order::key_before(key(g[i].1[l]), key(g[i].1[k])));
    }
    assert forall|i: int| 0 <= i < books.len() && !(#[trigger] books[i]).is_hidden() implies stands(g, books[i]) by {
        assert(keep(books[i]));
        let p = choose|p: int| 0 <= p < list.len() && list[p] == books[i];
        assert(stands(g, list[p]));
    }
}

/// The book listed last stands in the last group, or in one that goes by the same name.
proof fn lemma_last_name(list: Seq<BookEntry>, heading: spec_fn(BookEntry) -> Seq<char>, says: spec_fn(Seq<char>) -> Seq<char>)
    requires
        list.len() > 0,
    ensures
        grouped(list, heading, says).len() > 0,
        says(grouped(list, heading, says).last().0) == says(heading(list.last())),
{
}

/// Where each author's books stand together in the list, the groups are its stretches of the same
/// heading, whatever its ASCII case.
pub proof fn law_authors_that_stand_together(list: Seq<BookEntry>)
    requires
        forall|i: int, j: int, k: int|
            0 <= i < j < k < list.len() && author_of(#[trigger] list[i]) == author_of(#[trigger] list[k]) ==> author_of(
                #[trigger] list[j],
            ) == author_of(list[i]),
    ensures
        author_groups(list) == grouped(
            list,
            |b: BookEntry| author_heading(b),
            |name: Seq<char>| text::ascii_lower(name),
        ),
    decreases list.len(),
{
    let heading = |b: BookEntry| author_heading(b);
    let says = |name: Seq<char>| text::ascii_lower(name);
    if list.len() == 0 {
        assert(author_groups(list) =~= grouped(list, heading, says));
    } else {
        let rest = list.drop_last();
        let n = rest.len() as int;
        let b = list.last();
        assert forall|i: int, j: int, k: int| 0 <= i < j < k < rest.len() && author_of(#[trigger] rest[i]) == author_of(
            #[trigger] rest[k],
        ) implies author_of(#[trigger] rest[j]) == author_of(rest[i]) by {
            assert(rest[i] == list[i] && rest[j] == list[j] && rest[k] == list[k]);
        }
        law_authors_that_stand_together(rest);
        let before = author_groups(rest);
        lemma_author_groups(rest);
        lemma_group_of(before, author_of(b), before.len() as int);
        if n > 0 {
            lemma_last_name(rest, heading, says);
            assert(rest.last() == list[n - 1] && list[n] == b);
            if says(before.last().0) != says(heading(b)) {
                if let Some(g) = group_of(before, author_of(b), before.len() as int) {
                    assert(is_author_group(before[g]));
                    assert(rest.contains(before[g].1[0]));
                    let p = choose|p: int| 0 <= p < rest.len() && rest[p] == before[g].1[0];
                    assert(list[p] == rest[p]);
                    if p < n - 1 {
                        assert(author_of(list[n - 1]) == author_of(list[p]));
                    }
                    assert(author_of(list[n - 1]) == author_of(b));
                    assert(false);
                }
            }
        }
        assert(author_groups(list) =~= grouped(list, heading, says));
    }
}

/// Every series has one group: no two groups have the same name, the books of a group are those
/// of its series, and the groups stand in the order of the names, first whatever their case.
/// Every visible book of a series stands in one of them, and in no other.
pub proof fn law_one_group_for_each_series(books: Seq<BookEntry>, list: Seq<BookEntry>)
    requires
        is_series_list(books, list),
    ensures
        forall|i: int, j: int|
            0 <= i < j < series_groups(list).len() ==> {
                let a = (#[trigger] series_groups(list)[i]).0;
                let b = (#[trigger] series_groups(list)[j]).0;
                a != b && (order::text_before(text::lower(a), text::lower(b)) || (text::lower(a) == text::lower(b)
                    && order::text_before(a, b)))
            },
        forall|i: int, k: int|
            0 <= i < series_groups(list).len() && 0 <= k < series_groups(list)[i].1.len() ==> series_name(
                #[trigger] series_groups(list)[i].1[k],
            ) == series_groups(list)[i].0,
        forall|i: int|
            0 <= i < books.len() && !(#[trigger] books[i]).is_hidden() && books[i].series is Some ==> stands(series_groups(list), books[i]),
        forall|b: BookEntry, g: int, h: int| #[trigger]
            stands_in(series_groups(list), b, g) && #[trigger] stands_in(series_groups(list), b, h) ==> g == h,
{
    let key = |b: BookEntry| by_series_key(b);
    let heading = |b: BookEntry| series_name(b);
    let says = |name: Seq<char>| name;
    lemma_listing_in_order(books, |b: BookEntry| !b.is_hidden() && b.series is Some, key, list);
    lemma_groups_in_order(list, heading, says, key);
    let g = series_groups(list);
    assert(g == grouped(list, heading, says));
    assert forall|i: int, j: int| 0 <= i < j < g.len() implies ({
        let a = (#[trigger] g[i]).0;
        let b = (#[trigger] g[j]).0;
        a != b && (order::text_before(text::lower(a), text::lower(b)) || (text::lower(a) == text::lower(b)
            && order::text_before(a, b)))
    }) by {
        assert(is_group(heading, says, key, g[i]) && is_group(heading, says, key, g[j]));
        assert(front_before(key, g[i].1[0], g[j].1[0]));
        order::law_text_order_is_strict(key(g[i].1[0]).first);
        order::law_text_order_is_strict(key(g[i].1[0]).second);
    }
    assert forall|i: int, k: int| 0 <= i < g.len() && 0 <= k < g[i].1.len() implies series_name(#[trigger] g[i].1[k]) == g[i].0 by {
        assert(is_group(heading, says, key, g[i]));
        assert(says(heading(g[i].1[k])) == says(g[i].0));
    }
    let keep = |b: BookEntry| !b.is_hidden() && b.series is Some;
    law_groups_hold_the_list(list, heading, says);
    law_listing_is_complete(books, keep, key, list);
    assert forall|i: int| 0 <= i < books.len() && !(#[trigger] books[i]).is_hidden() && books[i].series is Some implies stands(
        g,
        books[i],
    ) by {
        assert(keep(books[i]));
        lemma_stands_somewhere(g, books[i]);
    }
    assert forall|b: BookEntry, x: int, y: int| #[trigger] stands_in(g, b, x) && #[trigger] stands_in(g, b, y) implies x == y by {
        let j = choose|j: int| 0 <= j < g[x].1.len() && g[x].1[j] == b;
        let k = choose|k: int| 0 <= k < g[y].1.len() && g[y].1[k] == b;
        assert(series_name(g[x].1[j]) == g[x].0);
        assert(series_name(g[y].1[k]) == g[y].0);
        if x < y {
            assert(g[x].0 != g[y].0);
        } else if y < x {
            assert(g[y].0 != g[x].0);
        }
    }
}

impl Library {
    /// Create a collection.
    pub fn add_collection(&mut self, name: &str) -> (id: u16)
        requires
            old(self).next_collection < u16::MAX,
        ensures
            touches_index(*old(self), *final(self)),
            id == if old(self).next_collection > 1 {
                old(self).next_collection
            } else {
                1
            },
            final(self).next_collection == id + 1,
            final(self).collections@.len() == old(self).collections@.len() + 1,
            final(self).collections@.drop_last() == old(self).collections@,
            final(self).collections@.last().id == id,
            final(self).collections@.last().name@ == name@,
            final(self).collections@.last().order == (old(self).collections@.len() as usize) as u16,
            *final(self) == (Library {
                collections: final(self).collections,
                next_collection: final(self).next_collection,
                dirty: true,
                generation: old(self).generation.wrapping_add(1),
                ..*old(self)
            }),
            collection_added(*old(self), name@, id, *final(self)),
    {
        self.touch();
        if self.next_collection < 1 {
            self.next_collection = 1;
        }
        let id: u16 = self.next_collection;
        self.next_collection = self.next_collection + 1;
        let order: u16 = self.collections.len() as u16;
        self.collections.push(Collection { id, name: text::owned(name), order });
        assert(self.collections@.drop_last() =~= old(self).collections@);
        id
    }

    /// Whether collection `i` is the first with this id.
    pub open spec fn is_collection(self, id: u16, i: int) -> bool {
        &&& 0 <= i < self.collections@.len()
        &&& self.collections@[i].id == id
        &&& forall|j: int| 0 <= j < i ==> (#[trigger] self.collections@[j]).id != id
    }

    /// Rename a collection.
    pub fn rename_collection(&mut self, id: u16, name: &str)
        ensures
            collection_renamed(*old(self), id, name@, *final(self)),
            (forall|i: int| 0 <= i < old(self).collections@.len() ==> (#[trigger] old(self).collections@[i]).id != id)
                ==> *final(self) == *old(self),
            forall|i: int| #[trigger]
                old(self).is_collection(id, i) ==> {
                    &&& final(self).collections@.len() == old(self).collections@.len()
                    &&& final(self).collections@[i].name@ == name@
                    &&& final(self).collections@ == old(self).collections@.update(
                        i,
                        Collection { name: final(self).collections@[i].name, ..old(self).collections@[i] },
                    )
                    &&& *final(self) == (Library {
                        collections: final(self).collections,
                        dirty: true,
                        generation: old(self).generation.wrapping_add(1),
                        ..*old(self)
                    })
                },
    {
        let mut i: usize = 0;
        while i < self.collections.len()
            invariant
                i <= self.collections@.len(),
                *self == *old(self),
                forall|j: int| 0 <= j < i ==> (#[trigger] self.collections@[j]).id != id,
            decreases self.collections@.len() - i,
        {
            if self.collections[i].id == id {
                self.collections[i].name = text::owned(name);
                self.touch();
                assert forall|k: int| #[trigger] old(self).is_collection(id, k) implies k == i by {
                    assert(old(self).collections@[i as int].id == id);
                    assert(old(self).collections@[k].id == id);
                }
                return;
            }
            i += 1;
        }
    }

    /// Delete a collection and its memberships.
    pub fn remove_collection(&mut self, id: u16)
        ensures
            touches_index(*old(self), *final(self)),
            collection_removed(*old(self), id, *final(self)),
            final(self).collections@ == old(self).collections@.filter(|c: Collection| c.id != id),
            final(self).books@.len() == old(self).books@.len(),
            forall|i: int|
                #![trigger final(self).books@[i]]
                0 <= i < old(self).books@.len() ==> final(self).books@[i] == (BookEntry {
                    collections: final(self).books@[i].collections,
                    ..old(self).books@[i]
                }) && final(self).books@[i].collections@ == old(self).books@[i].collections@.filter(|c: u16| c != id),
            *final(self) == (Library {
                books: final(self).books,
                collections: final(self).collections,
                dirty: true,
                generation: old(self).generation.wrapping_add(1),
                ..*old(self)
            }),
    {
        let ghost start = *self;
        let ghost all = self.collections@;
        let ghost keep_if = |c: Collection| c.id != id;
        self.touch();
        let mut i: usize = 0;
        let ghost mut seen: int = 0;
        proof {
            reveal(Seq::filter);
            assert(all.take(0).filter(keep_if) =~= Seq::empty());
            assert(self.collections@ =~= all.take(0).filter(keep_if) + all.skip(0));
        }
        while i < self.collections.len()
            invariant
                0 <= seen <= all.len(),
                i == all.take(seen).filter(keep_if).len(),
                keep_if == (|c: Collection| c.id != id),
                self.collections@ == all.take(seen).filter(keep_if) + all.skip(seen),
                *self == (Library {
                    collections: self.collections,
                    dirty: true,
                    generation: start.generation.wrapping_add(1),
                    ..start
                }),
            decreases all.len() - seen,
        {
            let ghost front = all.take(seen).filter(keep_if);
            proof {
                reveal(Seq::filter);
                assert(all.take(seen + 1).drop_last() =~= all.take(seen));
                assert(all.skip(seen)[0] == all[seen]);
                assert(self.collections@[i as int] == all[seen]);
            }
            if self.collections[i].id == id {
                self.collections.remove(i);
                assert(self.collections@ =~= front + all.skip(seen + 1));
            } else {
                assert(self.collections@ =~= front.push(all[seen]) + all.skip(seen + 1));
                i += 1;
            }
            proof {
                seen = seen + 1;
            }
        }
        assert(all.skip(seen).len() == 0);
        assert(all.take(seen) =~= all);
        assert(self.collections@ =~= all.filter(keep_if));
        let ghost kept = self.collections;
        let mut k: usize = 0;
        while k < self.books.len()
            invariant
                k <= self.books@.len() == start.books@.len(),
                *self == (Library {
                    books: self.books,
                    collections: kept,
                    dirty: true,
                    generation: start.generation.wrapping_add(1),
                    ..start
                }),
                forall|j: int|
                    #![trigger self.books@[j]]
                    0 <= j < k ==> self.books@[j] == (BookEntry {
                        collections: self.books@[j].collections,
                        ..start.books@[j]
                    }) && self.books@[j].collections@ == start.books@[j].collections@.filter(|c: u16| c != id) && dropped(
                        start.books@[j].collections@,
                        self.books@[j].collections@,
                        id,
                    ),
                forall|j: int| k <= j < self.books@.len() ==> #[trigger] self.books@[j] == start.books@[j],
            decreases self.books@.len() - k,
        {
            drop_number(&mut self.books[k].collections, id);
            proof {
                lemma_dropped(start.books@[k as int].collections@, id);
            }
            k += 1;
        }
        proof {
            lemma_collections_kept(all, id);
        }
    }

    /// Toggle a book's membership.
    ///
    /// True when the book is in the collection afterwards; false when it is not, or there is no
    /// such book.
    pub fn toggle_collection(&mut self, book: BookId, coll: u16) -> (r: bool)
        ensures
            *final(self) == (Library {
                books: final(self).books,
                dirty: true,
                generation: old(self).generation.wrapping_add(1),
                ..*old(self)
            }),
            spot(old(self).books@, book) is None ==> !r && final(self).books == old(self).books,
            spot(old(self).books@, book) matches Some(i) ==> {
                let was = old(self).books@[i].collections@;
                &&& final(self).books@ == old(self).books@.update(
                    i,
                    BookEntry { collections: final(self).books@[i].collections, ..old(self).books@[i] },
                )
                &&& r == !was.contains(coll)
                &&& final(self).books@[i].collections@ == toggled(was, coll)
            },
    {
        self.touch();
        match find(&self.books, book) {
            None => false,
            Some(i) => {
                match number_at(&self.books[i].collections, coll) {
                    Some(k) => {
                        proof {
                            let was = self.books@[i as int].collections@;
                            was.index_of_first_ensures(coll);
                            assert(was.index_of_first(coll) == Some(k as int));
                        }
                        self.books[i].collections.remove(k);
                        false
                    },
                    None => {
                        self.books[i].collections.push(coll);
                        true
                    },
                }
            },
        }
    }

    /// Books grouped by author (first author), groups sorted by author, books by series then
    /// title. Names that differ in ASCII case alone are one author's.
    pub fn authors(&self) -> (r: Vec<(String, Vec<&BookEntry>)>)
        ensures
            exists|list: Seq<BookEntry>| #[trigger]
                is_author_list(self.books@, list) && group_views(r@) == author_groups(list),
    {
        let v = self.by_author();
        let ghost list = entries(v@);
        let mut out: Vec<(String, Vec<&BookEntry>)> = Vec::new();
        let mut i: usize = 0;
        assert(group_views(out@) =~= author_groups(list.take(0)));
        while i < v.len()
            invariant
                i <= v@.len(),
                list == entries(v@),
                group_views(out@) == author_groups(list.take(i as int)),
            decreases v@.len() - i,
        {
            assert(list.take(i + 1).drop_last() =~= list.take(i as int));
            let b = v[i];
            assert(*b == list[i as int]);
            proof {
                lemma_author_groups(list.take(i as int));
            }
            let at = find_group(&out, b);
            file_under(&mut out, b.heading(), b, at);
            i += 1;
        }
        assert(list.take(i as int) =~= list);
        out
    }

    /// Books grouped by series, groups sorted by name, books by series index.
    pub fn series(&self) -> (r: Vec<(String, Vec<&BookEntry>)>)
        ensures
            exists|list: Seq<BookEntry>| #[trigger]
                is_series_list(self.books@, list) && group_views(r@) == series_groups(list),
    {
        let ghost keep_if = |b: BookEntry| !b.is_hidden() && b.series is Some;
        let ghost key_of = |b: BookEntry| by_series_key(b);
        let mut keep: Vec<bool> = Vec::new();
        let mut keys: Vec<SortKey> = Vec::new();
        let mut i: usize = 0;
        while i < self.books.len()
            invariant
                i <= self.books@.len(),
                keep_if == (|b: BookEntry| !b.is_hidden() && b.series is Some),
                keep@ == self.books@.take(i as int).map_values(keep_if),
                keys@.len() == i,
                forall|j: int| 0 <= j < i ==> (#[trigger] keys@[j])@ == by_series_key(self.books@[j]),
            decreases self.books@.len() - i,
        {
            let b = &self.books[i];
            keep.push(!b.hidden() && b.series.is_some());
            let (second, number): (String, u32) = match &b.series {
                Some(s) => (s.0.clone(), s.1 as u32),
                None => (String::new(), 0),
            };
            let k = SortKey { first: text::to_lowercase(&second), second, number, last: sort_title(&b.title) };
            assert(k@ == by_series_key(*b));
            keys.push(k);
            i += 1;
            assert(keep@ =~= self.books@.take(i as int).map_values(keep_if));
        }
        assert(self.books@.take(i as int) =~= self.books@);
        assert(order::key_views(keys@) =~= self.books@.map_values(key_of));
        let v = arranged(&self.books, &keep, &keys, Ghost(keep_if), Ghost(key_of));
        let ghost list = entries(v@);
        assert(is_series_list(self.books@, list));
        let mut out: Vec<(String, Vec<&BookEntry>)> = Vec::new();
        let mut j: usize = 0;
        assert(group_views(out@) =~= series_groups(list.take(0)));
        while j < v.len()
            invariant
                j <= v@.len(),
                list == entries(v@),
                group_views(out@) == series_groups(list.take(j as int)),
            decreases v@.len() - j,
        {
            assert(list.take(j + 1).drop_last() =~= list.take(j as int));
            let b = v[j];
            assert(*b == list[j as int]);
            let name = match &b.series {
                Some(s) => s.0.clone(),
                None => String::new(),
            };
            let n: usize = out.len();
            let at: Option<usize> = if n > 0 && text::same(&out[n - 1].0, &name) { Some(n - 1) } else { None };
            file_under(&mut out, name, b, at);
            assert(group_views(out@) =~= series_groups(list.take(j + 1)));
            j += 1;
        }
        assert(list.take(j as int) =~= list);
        out
    }
}

/// Where the group stands that a book of a list of authors joins, if there is one.
fn find_group(out: &Vec<(String, Vec<&BookEntry>)>, b: &BookEntry) -> (r: Option<usize>)
    requires
        forall|i: int| 0 <= i < out@.len() ==> (#[trigger] group_views(out@)[i]).1.len() > 0,
    ensures
        match r {
            Some(g) => g < out@.len() && joined_group(group_views(out@), *b) == Some(g as int),
            None => joined_group(group_views(out@), *b) is None,
        },
{
    let ghost groups = group_views(out@);
    let mut n: usize = out.len();
    if n > 0 {
        assert(groups.last().0 == out@[n - 1].0@);
        if text::same_ignoring_case(&out[n - 1].0, &b.heading()) {
            return Some(n - 1);
        }
    }
    while n > 0
        invariant
            n <= out@.len(),
            groups == group_views(out@),
            forall|i: int| 0 <= i < out@.len() ==> (#[trigger] groups[i]).1.len() > 0,
            joined_group(groups, *b) == group_of(groups, author_of(*b), n as int),
        decreases n,
    {
        assert(groups[n - 1].1.len() > 0);
        let first = out[n - 1].1[0];
        assert(*first == groups[n - 1].1[0]);
        let theirs = if first.authors.len() == 0 || b.authors.len() == 0 {
            first.authors.len() == b.authors.len()
        } else {
            text::same_ignoring_case(&first.authors[0], &b.authors[0])
        };
        if theirs {
            return Some(n - 1);
        }
        n -= 1;
    }
    None
}

/// Adds a book to a group, or starts a group with it.
fn file_under<'a>(out: &mut Vec<(String, Vec<&'a BookEntry>)>, name: String, b: &'a BookEntry, at: Option<usize>)
    requires
        at matches Some(g) ==> g < old(out)@.len(),
    ensures
        group_views(final(out)@) == filed(
            group_views(old(out)@),
            match at {
                Some(g) => Some(g as int),
                None => None,
            },
            name@,
            *b,
        ),
{
    let ghost before = group_views(out@);
    match at {
        Some(g) => {
            out[g].1.push(b);
            assert(entries(out@[g as int].1@) =~= before[g as int].1.push(*b));
            assert(group_views(out@) =~= before.update(g as int, (before[g as int].0, before[g as int].1.push(*b))));
        },
        None => {
            let mut one: Vec<&'a BookEntry> = Vec::new();
            one.push(b);
            assert(entries(one@) =~= seq![*b]);
            out.push((name, one));
            assert(group_views(out@) =~= before.push((name@, seq![*b])));
        },
    }
}

/// A book opened at `now`.
pub open spec fn opened_book(b: BookEntry, now: u32) -> BookEntry {
    BookEntry { last_opened: now, status: if b.status == Status::Unread { Status::Reading } else { b.status }, ..b }
}

/// A book at a new position.
pub open spec fn moved_book(b: BookEntry, loc: Loc) -> BookEntry {
    BookEntry { loc, status: if b.status == Status::Unread { Status::Reading } else { b.status }, ..b }
}

/// A book whose last page was shown today.
pub open spec fn ended_book(b: BookEntry, today: u16) -> BookEntry {
    BookEntry {
        status: Status::Finished,
        stats: BookStats {
            finished: Some(today),
            started: if b.stats.started is None { Some(today) } else { b.stats.started },
            ..b.stats
        },
        ..b
    }
}

/// A book marked finished today, or taken up again.
pub open spec fn marked_book(b: BookEntry, finished: bool, today: u16) -> BookEntry {
    BookEntry {
        status: if finished { Status::Finished } else { Status::Reading },
        stats: BookStats { finished: if finished { Some(today) } else { None }, ..b.stats },
        ..b
    }
}

/// What a search looks at: title, authors and series, in lower case.
pub open spec fn haystack(b: BookEntry) -> Seq<char> {
    text::lower(b.title@ + " "@ + text::joined_by(text::texts(b.authors@), " "@) + " "@ + series_name(b))
}

/// Whether every word of a query occurs in a book's title, authors or series, without regard to
/// case.
pub open spec fn matches_query(b: BookEntry, query: Seq<char>) -> bool {
    forall|k: int|
        0 <= k < text::words(query).len() ==> text::has_text(haystack(b), text::lower(#[trigger] text::words(query)[k]))
}

/// Whether `o` follows a book of the series `name` numbered `n`.
pub open spec fn follows(o: BookEntry, id: BookId, name: Seq<char>, n: u16) -> bool {
    !o.missing && o.id != id && (o.series matches Some(s) && s.0@ == name && s.1 > n)
}

/// Whether book `k` is the next of the series `name` after number `n`: the first of those with the
/// lowest higher number.
pub open spec fn is_next(books: Seq<BookEntry>, id: BookId, name: Seq<char>, n: u16, k: int) -> bool {
    &&& 0 <= k < books.len()
    &&& follows(books[k], id, name, n)
    &&& forall|j: int|
        0 <= j < books.len() && follows(#[trigger] books[j], id, name, n) ==> series_number(books[k]) <= series_number(books[j])
            && (j < k ==> series_number(books[k]) < series_number(books[j]))
}

fn find_all(hay: &str, needles: &Vec<String>) -> (r: bool)
    ensures
        r == forall|k: int| 0 <= k < needles@.len() ==> text::has_text(hay@, (#[trigger] needles@[k])@),
{
    let mut k: usize = 0;
    while k < needles.len()
        invariant
            k <= needles@.len(),
            forall|j: int| 0 <= j < k ==> text::has_text(hay@, (#[trigger] needles@[j])@),
        decreases needles@.len() - k,
    {
        if !text::contains(hay, &needles[k]) {
            assert(!text::has_text(hay@, needles@[k as int]@));
            return false;
        }
        k += 1;
    }
    true
}

impl Library {
    /// Record the total pages of a book for a typography profile.
    pub fn set_pages_total(&mut self, id: BookId, key: u32, pages: u32)
        ensures
            final(self).books@ != old(self).books@ ==> touches_index(*old(self), *final(self)),
            final(self).books@ == with_book(old(self).books@, id, |b: BookEntry| paged_book(b, key, pages)),
            final(self).books@ == with_book(
                old(self).books@,
                id,
                |b: BookEntry| BookEntry { pages_total: Some((key, pages)), ..b },
            ),
            *final(self) == (match spot(old(self).books@, id) {
                Some(i) => if old(self).books@[i].pages_total != Some((key, pages)) {
                    Library {
                        books: final(self).books,
                        dirty: true,
                        generation: old(self).generation.wrapping_add(1),
                        ..*old(self)
                    }
                } else {
                    *old(self)
                },
                None => *old(self),
            }),
    {
        if let Some(i) = find(&self.books, id) {
            let same = match self.books[i].pages_total {
                Some(p) => p.0 == key && p.1 == pages,
                None => false,
            };
            if !same {
                self.books[i].pages_total = Some((key, pages));
                self.touch();
            } else {
                assert(self.books@[i as int] == (BookEntry { pages_total: Some((key, pages)), ..self.books@[i as int] }));
                assert(self.books@ =~= self.books@.update(i as int, self.books@[i as int]));
            }
        }
    }

    /// Record that a book was opened now.
    pub fn opened(&mut self, id: BookId, now: u32)
        ensures
            final(self).current == Some(id),
            touches_positions(*old(self), *final(self)),
            final(self).books@ == with_book(old(self).books@, id, |b: BookEntry| opened_book(b, now)),
            *final(self) == (Library {
                books: final(self).books,
                current: Some(id),
                dirty: old(self).dirty || old(self).current != Some(id),
                dirty_pos: true,
                generation: if old(self).current != Some(id) {
                    old(self).generation.wrapping_add(1).wrapping_add(1)
                } else {
                    old(self).generation.wrapping_add(1)
                },
                ..*old(self)
            }),
    {
        self.touch_positions();
        if self.current != Some(id) {
            self.touch();
        }
        self.current = Some(id);
        if let Some(i) = find(&self.books, id) {
            self.books[i].last_opened = now;
            if self.books[i].status == Status::Unread {
                self.books[i].status = Status::Reading;
            }
        }
    }

    /// Update the reading position (Unread becomes Reading; finishing is explicit, see
    /// [`Library::reached_end`]).
    pub fn set_loc(&mut self, id: BookId, loc: Loc)
        ensures
            final(self).books@ != old(self).books@ ==> touches_positions(*old(self), *final(self)),
            final(self).books@ == with_book(old(self).books@, id, |b: BookEntry| moved_book(b, loc)),
            *final(self) == (match spot(old(self).books@, id) {
                Some(i) => if old(self).books@[i].loc != loc || old(self).books@[i].status == Status::Unread {
                    Library {
                        books: final(self).books,
                        dirty_pos: true,
                        generation: old(self).generation.wrapping_add(1),
                        ..*old(self)
                    }
                } else {
                    *old(self)
                },
                None => *old(self),
            }),
    {
        if let Some(i) = find(&self.books, id) {
            if self.books[i].loc != loc || self.books[i].status == Status::Unread {
                self.books[i].loc = loc;
                if self.books[i].status == Status::Unread {
                    self.books[i].status = Status::Reading;
                }
                self.touch_positions();
            } else {
                assert(self.books@[i as int] == moved_book(self.books@[i as int], loc));
                assert(self.books@ =~= self.books@.update(i as int, self.books@[i as int]));
            }
        }
    }

    /// The reader showed the last page: mark finished today unless already finished. True when
    /// this finished the book.
    pub fn reached_end(&mut self, id: BookId, today: u16) -> (r: bool)
        ensures
            r ==> touches_positions(*old(self), *final(self)),
            r == ends_now(old(self).books@, id),
            r == (spot(old(self).books@, id) matches Some(i) && old(self).books@[i].status != Status::Finished),
            !r ==> *final(self) == *old(self),
            r ==> final(self).books@ == with_book(old(self).books@, id, |b: BookEntry| ended_book(b, today)),
            r ==> *final(self) == (Library {
                books: final(self).books,
                dirty_pos: true,
                generation: old(self).generation.wrapping_add(1),
                ..*old(self)
            }),
    {
        if let Some(i) = find(&self.books, id) {
            if self.books[i].status != Status::Finished {
                self.books[i].status = Status::Finished;
                self.books[i].stats.finished = Some(today);
                if self.books[i].stats.started.is_none() {
                    self.books[i].stats.started = Some(today);
                }
                self.touch_positions();
                return true;
            }
        }
        false
    }

    /// Mark finished (or not) today.
    pub fn set_finished(&mut self, id: BookId, finished: bool, today: u16)
        ensures
            touches_positions(*old(self), *final(self)),
            final(self).books@ == with_book(old(self).books@, id, |b: BookEntry| marked_book(b, finished, today)),
            *final(self) == (Library {
                books: final(self).books,
                dirty_pos: true,
                generation: old(self).generation.wrapping_add(1),
                ..*old(self)
            }),
    {
        self.touch_positions();
        if let Some(i) = find(&self.books, id) {
            if finished {
                self.books[i].status = Status::Finished;
                self.books[i].stats.finished = Some(today);
            } else {
                self.books[i].status = Status::Reading;
                self.books[i].stats.finished = None;
            }
        }
    }

    /// Search titles, authors and series (case-insensitive substring; multi-word AND). A query
    /// without a word finds nothing.
    pub fn search(&self, query: &str) -> (r: Vec<&BookEntry>)
        ensures
            entries(r@) == self.books@.filter(
                |b: BookEntry| text::words(query@).len() > 0 && !b.is_hidden() && matches_query(b, query@),
            ),
            entries(r@) == found(self.books@, query@),
    {
        let ghost keep_if = |b: BookEntry| text::words(query@).len() > 0 && !b.is_hidden() && matches_query(b, query@);
        let ws = text::split_words(query);
        let mut q: Vec<String> = Vec::new();
        let mut k: usize = 0;
        while k < ws.len()
            invariant
                k <= ws@.len(),
                q@.len() == k,
                text::texts(ws@) == text::words(query@),
                forall|j: int| 0 <= j < k ==> (#[trigger] q@[j])@ == text::lower(text::words(query@)[j]),
            decreases ws@.len() - k,
        {
            assert(text::texts(ws@)[k as int] == ws@[k as int]@);
            q.push(text::to_lowercase(&ws[k]));
            k += 1;
        }
        let mut out: Vec<&BookEntry> = Vec::new();
        let mut i: usize = 0;
        proof {
            reveal(Seq::filter);
            assert(entries(out@) =~= self.books@.take(0).filter(keep_if));
        }
        while i < self.books.len()
            invariant
                i <= self.books@.len(),
                keep_if == (|b: BookEntry|
                    text::words(query@).len() > 0 && !b.is_hidden() && matches_query(b, query@)),
                q@.len() == text::words(query@).len(),
                forall|j: int| 0 <= j < q@.len() ==> (#[trigger] q@[j])@ == text::lower(text::words(query@)[j]),
                entries(out@) == self.books@.take(i as int).filter(keep_if),
            decreases self.books@.len() - i,
        {
            proof {
                reveal(Seq::filter);
                assert(self.books@.take(i + 1).drop_last() =~= self.books@.take(i as int));
            }
            let b = &self.books[i];
            if q.len() > 0 && !b.hidden() {
                let mut hay = text::join3(&b.title, " ", &text::join_by(&b.authors, " "));
                hay.append(" ");
                if let Some(s) = &b.series {
                    hay.append(&s.0);
                }
                assert(hay@ =~= b.title@ + " "@ + text::joined_by(text::texts(b.authors@), " "@) + " "@ + series_name(*b));
                let hay = text::to_lowercase(&hay);
                let found = find_all(&hay, &q);
                proof {
                    if found {
                        assert forall|k: int| 0 <= k < text::words(query@).len() implies text::has_text(
                            haystack(*b),
                            text::lower(#[trigger] text::words(query@)[k]),
                        ) by {
                            assert(text::has_text(hay@, q@[k]@));
                        }
                    } else {
                        let k = choose|k: int| 0 <= k < q@.len() && !text::has_text(hay@, (#[trigger] q@[k])@);
                        assert(!text::has_text(haystack(*b), text::lower(text::words(query@)[k])));
                    }
                    assert(found == matches_query(*b, query@));
                }
                if found {
                    let ghost before = entries(out@);
                    out.push(b);
                    assert(entries(out@) =~= before.push(*b));
                }
            }
            i += 1;
        }
        assert(self.books@.take(i as int) =~= self.books@);
        out
    }

    /// The next book in the same series, if any.
    pub fn next_in_series(&self, id: BookId) -> (r: Option<&BookEntry>)
        ensures
            match spot(self.books@, id) {
                None => r is None,
                Some(i) => match self.books@[i].series {
                    None => r is None,
                    Some(s) => match r {
                        Some(b) => exists|k: int| is_next(self.books@, id, s.0@, s.1, k) && *b == #[trigger] self.books@[k],
                        None => forall|j: int|
                            0 <= j < self.books@.len() ==> !follows(#[trigger] self.books@[j], id, s.0@, s.1),
                    },
                },
            },
    {
        let at = match find(&self.books, id) {
            Some(i) => i,
            None => return None,
        };
        let ghost here = self.books@[at as int];
        let s = match &self.books[at].series {
            Some(s) => s,
            None => return None,
        };
        let mut best: Option<usize> = None;
        let mut low: u16 = 0;
        let mut j: usize = 0;
        while j < self.books.len()
            invariant
                j <= self.books@.len(),
                best is None ==> forall|i: int| 0 <= i < j ==> !follows(#[trigger] self.books@[i], id, s.0@, s.1),
                best matches Some(k) ==> is_next(self.books@.take(j as int), id, s.0@, s.1, k as int) && low
                    == series_number(self.books@[k as int]) && k < j,
            decreases self.books@.len() - j,
        {
            let ghost before = self.books@.take(j as int);
            let ghost now = self.books@.take(j + 1);
            let o = &self.books[j];
            let mut n: u16 = 0;
            let mut fits = false;
            if let Some(t) = &o.series {
                n = t.1;
                fits = !o.missing && o.id != id && text::same(&t.0, &s.0) && t.1 > s.1;
            }
            assert(fits == follows(*o, id, s.0@, s.1));
            let better = match best {
                None => true,
                Some(_) => n < low,
            };
            if fits && better {
                best = Some(j);
                low = n;
            }
            proof {
                assert forall|i: int| 0 <= i < j implies now[i] == #[trigger] before[i] by {}
                if let Some(k) = best {
                    assert(now[k as int] == self.books@[k as int]);
                    assert forall|i: int| 0 <= i < now.len() && follows(#[trigger] now[i], id, s.0@, s.1) implies series_number(
                        now[k as int],
                    ) <= series_number(now[i]) && (i < k ==> series_number(now[k as int]) < series_number(now[i])) by {
                        if i < j {
                            assert(before[i] == now[i]);
                            assert(self.books@[i] == now[i]);
                        }
                    }
                }
            }
            j += 1;
        }
        assert(self.books@.take(j as int) =~= self.books@);
        match best {
            Some(k) => {
                assert(is_next(self.books@, id, s.0@, s.1, k as int));
                Some(&self.books[k])
            },
            None => None,
        }
    }
}

/// No two books have the same id.
pub open spec fn distinct(books: Seq<BookEntry>) -> bool {
    forall|i: int, j: int| 0 <= i < j < books.len() ==> (#[trigger] books[i]).id != (#[trigger] books[j]).id
}

proof fn lemma_spot(books: Seq<BookEntry>, i: int)
    requires
        distinct(books),
        0 <= i < books.len(),
    ensures
        spot(books, books[i].id) == Some(i),
{
    let id = books[i].id;
    assert(is_first(books, id, i));
    let k = spot(books, id)->0;
    assert(is_first(books, id, k));
    assert(books[k].id == books[i].id);
}

proof fn lemma_spot_any(books: Seq<BookEntry>, id: BookId)
    ensures
        spot(books, id) matches Some(i) ==> is_first(books, id, i),
        spot(books, id) is None ==> forall|i: int| 0 <= i < books.len() ==> (#[trigger] books[i]).id != id,
{
    if spot(books, id) is None {
        assert forall|i: int| 0 <= i < books.len() implies (#[trigger] books[i]).id != id by {
            if books[i].id == id {
                lemma_first_exists(books, id, i);
            }
        }
    }
}

proof fn lemma_first_exists(books: Seq<BookEntry>, id: BookId, i: int)
    requires
        0 <= i < books.len(),
        books[i].id == id,
    ensures
        exists|k: int| is_first(books, id, k),
    decreases i,
{
    if !is_first(books, id, i) {
        let j = choose|j: int| 0 <= j < i && (#[trigger] books[j]).id == id;
        lemma_first_exists(books, id, j);
    }
}

/// What was put in is found again under its id, unless it was new and the index was full.
pub proof fn law_upserted_is_found(books: Seq<BookEntry>, e: BookEntry)
    requires
        spot(books, e.id) is Some || books.len() < MAX_BOOKS,
    ensures
        spot(upserted(books, e), e.id) is Some,
        upserted(books, e)[spot(upserted(books, e), e.id)->0] == e,
{
    lemma_spot_any(books, e.id);
    let now = upserted(books, e);
    let at = match spot(books, e.id) {
        Some(i) => i,
        None => books.len() as int,
    };
    assert(is_first(now, e.id, at));
    let k = spot(now, e.id)->0;
    assert(is_first(now, e.id, k));
    assert(now[k].id == now[at].id);
}

/// Putting a book in leaves every other one as it was, keeps the ids distinct and the index
/// within bounds.
pub proof fn law_upserting_keeps_the_rest(books: Seq<BookEntry>, e: BookEntry, id: BookId)
    requires
        distinct(books),
        books.len() <= MAX_BOOKS,
        id != e.id,
    ensures
        distinct(upserted(books, e)),
        upserted(books, e).len() <= MAX_BOOKS,
        spot(upserted(books, e), id) is Some <==> spot(books, id) is Some,
        spot(books, id) matches Some(i) ==> upserted(books, e)[spot(upserted(books, e), id)->0] == books[i],
{
    lemma_spot_any(books, e.id);
    lemma_spot_any(books, id);
    let now = upserted(books, e);
    assert(distinct(now)) by {
        assert forall|i: int, j: int| 0 <= i < j < now.len() implies (#[trigger] now[i]).id != (#[trigger] now[j]).id by {
            assert(i < books.len() ==> books[i].id == now[i].id);
            assert(j < books.len() ==> books[j].id == now[j].id);
            if j == books.len() {
                assert(books[i].id != e.id);
            } else {
                assert(books[i].id != books[j].id);
            }
        }
    }
    lemma_spot_any(now, id);
    if let Some(i) = spot(books, id) {
        lemma_spot(now, i);
        assert(now[i] == books[i]);
    } else if let Some(k) = spot(now, id) {
        if k < books.len() {
            assert(books[k].id == now[k].id);
        }
    }
}

/// A removed book is gone, and the others are still there.
pub proof fn law_removed_is_gone(books: Seq<BookEntry>, i: int, j: int)
    requires
        distinct(books),
        0 <= i < books.len(),
        0 <= j < books.len(),
        i != j,
    ensures
        distinct(books.remove(i)),
        spot(books.remove(i), books[i].id) is None,
        spot(books.remove(i), books[j].id) == Some(if j < i { j } else { j - 1 }),
        books.remove(i)[if j < i { j } else { j - 1 }] == books[j],
{
    let now = books.remove(i);
    assert forall|a: int, b: int| 0 <= a < b < now.len() implies (#[trigger] now[a]).id != (#[trigger] now[b]).id by {
        let a0 = if a < i { a } else { a + 1 };
        let b0 = if b < i { b } else { b + 1 };
        assert(now[a] == books[a0] && now[b] == books[b0]);
    }
    let k = if j < i { j } else { j - 1 };
    assert(now[k] == books[j]);
    lemma_spot(now, k);
    lemma_spot_any(now, books[i].id);
    if let Some(m) = spot(now, books[i].id) {
        let m0 = if m < i { m } else { m + 1 };
        assert(now[m] == books[m0]);
        assert(books[m0].id != books[i].id);
    }
}

/// Whether a number occurs in a list no more than once.
pub open spec fn once_at_most(s: Seq<u16>, x: u16) -> bool {
    forall|i: int, j: int| 0 <= i < j < s.len() && #[trigger] s[i] == x ==> #[trigger] s[j] != x
}

/// Toggling a membership twice leaves the book in the same collections, where the collection
/// is not listed twice.
pub proof fn law_toggling_twice(was: Seq<u16>, coll: u16, x: u16)
    requires
        once_at_most(was, coll),
    ensures
        once_at_most(toggled(was, coll), coll),
        toggled(was, coll).contains(coll) == !was.contains(coll),
        x != coll ==> toggled(was, coll).contains(x) == was.contains(x),
        toggled(toggled(was, coll), coll).contains(x) == was.contains(x),
{
    lemma_toggled(was, coll, x);
    lemma_toggled(toggled(was, coll), coll, x);
}

proof fn lemma_toggled(was: Seq<u16>, coll: u16, x: u16)
    requires
        once_at_most(was, coll),
    ensures
        once_at_most(toggled(was, coll), coll),
        toggled(was, coll).contains(coll) == !was.contains(coll),
        x != coll ==> toggled(was, coll).contains(x) == was.contains(x),
{
    let now = toggled(was, coll);
    if was.contains(coll) {
        was.index_of_first_ensures(coll);
        let k = was.index_of_first(coll)->0;
        assert(now == was.remove(k));
        assert forall|i: int| 0 <= i < now.len() implies now[i] == was[if i < k { i } else { i + 1 }] by {}
        assert forall|i: int| 0 <= i < now.len() implies now[i] != coll by {
            assert(was[k] == coll);
            if i >= k {
                assert(was[i + 1] != coll);
            }
        }
        assert(!now.contains(coll));
        if was.contains(x) && x != coll {
            let m = choose|m: int| 0 <= m < was.len() && was[m] == x;
            assert(now[if m < k { m } else { m - 1 }] == x);
        }
        if now.contains(x) {
            let m = choose|m: int| 0 <= m < now.len() && now[m] == x;
            assert(was[if m < k { m } else { m + 1 }] == x);
        }
    } else {
        assert(now[now.len() - 1] == coll);
        if was.contains(x) {
            let m = choose|m: int| 0 <= m < was.len() && was[m] == x;
            assert(now[m] == x);
        }
        if now.contains(x) && x != coll {
            let m = choose|m: int| 0 <= m < now.len() && now[m] == x;
            assert(was[m] == x);
        }
    }
}

proof fn lemma_merged_ids(books: Seq<BookEntry>, recs: Seq<PosRecord>)
    ensures
        merged(books, recs).len() == books.len(),
        forall|i: int| 0 <= i < books.len() ==> (#[trigger] merged(books, recs)[i]).id == books[i].id,
    decreases recs.len(),
{
    if recs.len() > 0 {
        lemma_merged_ids(books, recs.drop_last());
        let before = merged(books, recs.drop_last());
        lemma_spot_any(before, recs.last().id);
    }
}

proof fn lemma_merged_at(books: Seq<BookEntry>, recs: Seq<PosRecord>, i: int)
    requires
        distinct(books),
        0 <= i < books.len(),
        forall|a: int, b: int| 0 <= a < b < recs.len() ==> (#[trigger] recs[a]).id != (#[trigger] recs[b]).id,
    ensures
        merged(books, recs).len() == books.len(),
        (forall|k: int| 0 <= k < recs.len() ==> (#[trigger] recs[k]).id != books[i].id) ==> merged(books, recs)[i] == books[i],
        forall|k: int|
            0 <= k < recs.len() && (#[trigger] recs[k]).id == books[i].id ==> merged(books, recs)[i] == with_record(
                books[i],
                recs[k],
            ),
    decreases recs.len(),
{
    if recs.len() > 0 {
        let rest = recs.drop_last();
        let r = recs.last();
        assert forall|a: int, b: int| 0 <= a < b < rest.len() implies (#[trigger] rest[a]).id != (#[trigger] rest[b]).id by {
            assert(recs[a].id != recs[b].id);
        }
        lemma_merged_at(books, rest, i);
        lemma_merged_ids(books, rest);
        let before = merged(books, rest);
        assert(distinct(before)) by {
            assert forall|a: int, b: int| 0 <= a < b < before.len() implies (#[trigger] before[a]).id
                != (#[trigger] before[b]).id by {
                assert(books[a].id != books[b].id);
            }
        }
        lemma_spot_any(before, r.id);
        if r.id == books[i].id {
            lemma_spot(before, i);
            assert forall|k: int| 0 <= k < rest.len() implies (#[trigger] rest[k]).id != books[i].id by {
                assert(recs[k].id != recs[recs.len() - 1].id);
            }
            assert(before[i] == books[i]);
        } else if let Some(m) = spot(before, r.id) {
            assert(m != i);
        }
        assert forall|k: int| 0 <= k < recs.len() && (#[trigger] recs[k]).id == books[i].id implies merged(books, recs)[i]
            == with_record(books[i], recs[k]) by {
            if k < rest.len() {
                assert(rest[k] == recs[k]);
                assert(recs[k].id != recs[recs.len() - 1].id);
            }
        }
        if forall|k: int| 0 <= k < recs.len() ==> (#[trigger] recs[k]).id != books[i].id {
            assert(recs[recs.len() - 1].id != books[i].id);
            assert forall|k: int| 0 <= k < rest.len() implies (#[trigger] rest[k]).id != books[i].id by {
                assert(recs[k].id != books[i].id);
            }
        }
    }
}

proof fn lemma_records(books: Seq<BookEntry>)
    requires
        distinct(books),
    ensures
        forall|i: int| 0 <= i < books.len() && recorded(#[trigger] books[i]) ==> records(books).contains(record_of(books[i])),
        forall|k: int|
            0 <= k < records(books).len() ==> exists|i: int|
                0 <= i < books.len() && recorded(#[trigger] books[i]) && #[trigger] records(books)[k] == record_of(books[i]),
        forall|a: int, b: int|
            0 <= a < b < records(books).len() ==> (#[trigger] records(books)[a]).id != (#[trigger] records(books)[b]).id,
    decreases books.len(),
{
    if books.len() > 0 {
        let rest = books.drop_last();
        assert forall|a: int, b: int| 0 <= a < b < rest.len() implies (#[trigger] rest[a]).id != (#[trigger] rest[b]).id by {
            assert(books[a].id != books[b].id);
        }
        lemma_records(rest);
        let recs = records(books);
        let before = records(rest);
        assert forall|i: int| 0 <= i < books.len() && recorded(#[trigger] books[i]) implies recs.contains(record_of(books[i])) by {
            if i < rest.len() {
                assert(rest[i] == books[i]);
                let k = choose|k: int| 0 <= k < before.len() && before[k] == record_of(books[i]);
                assert(recs[k] == record_of(books[i]));
            } else {
                assert(recs[recs.len() - 1] == record_of(books[i]));
            }
        }
        assert forall|k: int| 0 <= k < recs.len() implies exists|i: int|
            0 <= i < books.len() && recorded(#[trigger] books[i]) && #[trigger] recs[k] == record_of(books[i]) by {
            if k < before.len() {
                let i = choose|i: int|
                    0 <= i < rest.len() && recorded(#[trigger] rest[i]) && before[k] == record_of(rest[i]);
                assert(books[i] == rest[i]);
            } else {
                assert(recorded(books[books.len() - 1]));
            }
        }
        assert forall|a: int, b: int| 0 <= a < b < recs.len() implies (#[trigger] recs[a]).id != (#[trigger] recs[b]).id by {
            assert(recs[a] == before[a]);
            let i = choose|i: int| 0 <= i < rest.len() && recorded(#[trigger] rest[i]) && before[a] == record_of(rest[i]);
            if b == before.len() {
                assert(books[i].id != books[books.len() - 1].id);
            } else {
                assert(recs[b] == before[b]);
            }
        }
    }
}

/// What was written comes back: the positions file of `books`, laid over an index copy of the same
/// books, gives each recorded book its position, its status and the day it was finished again, or
/// that it is not, however old the copy is. The day it was started comes back where the copy has
/// none, and the later of the two times it was opened stays. A book without a record keeps what
/// the copy says.
pub proof fn law_positions_come_back(books: Seq<BookEntry>, copy: Seq<BookEntry>, i: int)
    requires
        distinct(books),
        copy.len() == books.len(),
        forall|j: int| 0 <= j < books.len() ==> (#[trigger] copy[j]).id == books[j].id,
        0 <= i < books.len(),
    ensures
        merged(copy, records(books)).len() == books.len(),
        recorded(books[i]) ==> merged(copy, records(books))[i] == with_record(copy[i], record_of(books[i])),
        recorded(books[i]) ==> merged(copy, records(books))[i].loc == books[i].loc,
        recorded(books[i]) ==> merged(copy, records(books))[i].status == books[i].status,
        recorded(books[i]) ==> merged(copy, records(books))[i].stats.finished == books[i].stats.finished,
        recorded(books[i]) ==> merged(copy, records(books))[i].stats.started == (if copy[i].stats.started is Some {
            copy[i].stats.started
        } else {
            books[i].stats.started
        }),
        recorded(books[i]) ==> merged(copy, records(books))[i].last_opened == (if copy[i].last_opened >= books[i].last_opened {
            copy[i].last_opened
        } else {
            books[i].last_opened
        }),
        !recorded(books[i]) ==> merged(copy, records(books))[i] == copy[i],
{
    let recs = records(books);
    lemma_records(books);
    assert forall|a: int, b: int| 0 <= a < b < copy.len() implies (#[trigger] copy[a]).id != (#[trigger] copy[b]).id by {
        assert(books[a].id != books[b].id);
    }
    lemma_merged_at(copy, recs, i);
    if recorded(books[i]) {
        let k = choose|k: int| 0 <= k < recs.len() && recs[k] == record_of(books[i]);
        assert(recs[k].id == copy[i].id);
    } else {
        assert forall|k: int| 0 <= k < recs.len() implies (#[trigger] recs[k]).id != copy[i].id by {
            let j = choose|j: int| 0 <= j < books.len() && recorded(#[trigger] books[j]) && recs[k] == record_of(books[j]);
            assert(books[j].id != books[i].id);
        }
    }
}

/// An index saved and loaded again is the one that was saved: laying a library's own positions
/// over its books changes nothing.
pub proof fn law_saved_index_comes_back(books: Seq<BookEntry>)
    requires
        distinct(books),
    ensures
        merged(books, records(books)) == books,
{
    lemma_merged_ids(books, records(books));
    assert forall|i: int| 0 <= i < books.len() implies merged(books, records(books))[i] == books[i] by {
        law_positions_come_back(books, books, i);
        assert(with_record(books[i], record_of(books[i])) == books[i]);
    }
    assert(merged(books, records(books)) =~= books);
}

/// Opening, moving, finishing and marking a book change no other book and no id.
pub proof fn law_changes_touch_one_book(books: Seq<BookEntry>, id: BookId, f: spec_fn(BookEntry) -> BookEntry, i: int)
    requires
        0 <= i < books.len(),
        forall|b: BookEntry| (#[trigger] f(b)).id == b.id,
    ensures
        with_book(books, id, f).len() == books.len(),
        with_book(books, id, f)[i].id == books[i].id,
        books[i].id != id ==> with_book(books, id, f)[i] == books[i],
{
    lemma_spot_any(books, id);
}

/// Where the current book is on the shelf at all, it stands first.
pub proof fn law_current_leads_the_shelf(list: Seq<BookEntry>, cur: BookId)
    requires
        spot(list, cur) is Some,
    ensures
        list.remove(spot(list, cur)->0).insert(0, list[spot(list, cur)->0])[0].id == cur,
        list.remove(spot(list, cur)->0).insert(0, list[spot(list, cur)->0]).len() == list.len(),
{
    lemma_spot_any(list, cur);
}

/// A book's share read never shrinks as its position moves on, and is whole once it is finished.
pub proof fn law_percent_grows(b: BookEntry, further: Loc)
    requires
        b.loc.chars <= further.chars,
    ensures
        0 <= b.percent_read() <= (BookEntry { loc: further, ..b }).percent_read() <= 100,
        b.status == Status::Finished ==> b.percent_read() == 100,
{
    if b.chars > 0 {
        let x = b.loc.chars as int * 100;
        let y = further.chars as int * 100;
        let d = b.chars as int;
        assert(x / d <= y / d) by (nonlinear_arith)
            requires
                x <= y,
                d > 0,
        ;
        assert(0 <= x / d) by (nonlinear_arith)
            requires
                x >= 0,
                d > 0,
        ;
    }
}

/// What a card that writes everything reports of what a save asks for.
pub open spec fn all_written(ask: SaveAsk) -> SaveEvent {
    match ask {
        SaveAsk::WriteIndex => SaveEvent::Index(true),
        SaveAsk::WritePositions(_) => SaveEvent::Positions(true),
        _ => SaveEvent::Root(true),
    }
}

/// A save that asks for something asks for the folder first; then, on a card that writes everything, for the files
/// that are unsaved, each once, and ends with nothing unsaved. `asks` are its requests, one after the other.
pub proof fn law_save_leaves_nothing_unsaved(dirty: bool, dirty_pos: bool, books: Seq<BookEntry>, asks: Seq<SaveAsk>)
    requires
        dirty || dirty_pos,
        asks.len() == 4,
        asks_next(asks[0], dirty, dirty_pos, SaveEvent::Start, books),
        asks_next(asks[1], dirty, dirty_pos, all_written(asks[0]), books),
        asks_next(
            asks[2],
            index_unsaved(dirty, all_written(asks[0])),
            positions_unsaved(dirty_pos, all_written(asks[0])),
            all_written(asks[1]),
            books,
        ),
        asks_next(
            asks[3],
            index_unsaved(index_unsaved(dirty, all_written(asks[0])), all_written(asks[1])),
            positions_unsaved(positions_unsaved(dirty_pos, all_written(asks[0])), all_written(asks[1])),
            all_written(asks[2]),
            books,
        ),
    ensures
        asks[0] is MakeRoot,
        asks[1] is WriteIndex <==> dirty,
        dirty_pos ==> ((if dirty { asks[2] } else { asks[1] }) matches SaveAsk::WritePositions(recs) && recs@ == records(
            books,
        )),
        (if dirty && dirty_pos { asks[3] } else { asks[2] }) is Done,
        ({
            let (d1, p1) = (index_unsaved(dirty, all_written(asks[1])), positions_unsaved(dirty_pos, all_written(asks[1])));
            &&& !(dirty && dirty_pos) ==> !d1 && !p1
            &&& !index_unsaved(d1, all_written(asks[2])) && !positions_unsaved(p1, all_written(asks[2]))
        }),
{
}

/// A write that fails ends the save, and what it was to write stays unsaved.
pub proof fn law_failed_save_loses_nothing(dirty: bool, dirty_pos: bool, books: Seq<BookEntry>, ask: SaveAsk, ev: SaveEvent)
    requires
        ev == SaveEvent::Root(false) || ev == SaveEvent::Index(false) || ev == SaveEvent::Positions(false),
        asks_next(ask, dirty, dirty_pos, ev, books),
    ensures
        ask is Failed,
        index_unsaved(dirty, ev) == dirty,
        positions_unsaved(dirty_pos, ev) == dirty_pos,
{
}

/// The books a search finds, in the order of the index.
pub open spec fn found(books: Seq<BookEntry>, query: Seq<char>) -> Seq<BookEntry> {
    books.filter(|b: BookEntry| text::words(query).len() > 0 && !b.is_hidden() && matches_query(b, query))
}

/// Where the current book is on the shelf at all, the shelf begins with it.
pub proof fn law_shelf_begins_with_the_current(lib: Library, shelf: Seq<BookEntry>, i: int)
    requires
        is_shelf(lib, shelf),
        0 <= i < shelf.len(),
        lib.current == Some(shelf[i].id),
    ensures
        lib.current == Some(shelf[0].id),
{
    let list = lemma_shelf_list(lib, shelf);
    lemma_spot_any(list, shelf[i].id);
}

proof fn lemma_shelf_list(lib: Library, shelf: Seq<BookEntry>) -> (list: Seq<BookEntry>)
    requires
        is_shelf(lib, shelf),
    ensures
        is_shelf_list(lib.books@, list),
        shelf == (match lib.current {
            Some(cur) => match spot(list, cur) {
                Some(i) => list.remove(i).insert(0, list[i]),
                None => list,
            },
            None => list,
        }),
        shelf.len() == list.len(),
{
    let shown = |list: Seq<BookEntry>|
        match lib.current {
            Some(cur) => match spot(list, cur) {
                Some(i) => list.remove(i).insert(0, list[i]),
                None => list,
            },
            None => list,
        };
    let list = choose|list: Seq<BookEntry>| #[trigger] is_shelf_list(lib.books@, list) && shelf == shown(list);
    if lib.current is Some {
        lemma_spot_any(list, lib.current->0);
    }
    list
}

/// The shelf holds the visible books and no others: those that are on the card and are neither news nor
/// encyclopedia pages.
pub proof fn law_shelf_holds_the_visible(lib: Library, shelf: Seq<BookEntry>, b: BookEntry)
    requires
        is_shelf(lib, shelf),
    ensures
        shelf.contains(b) <==> lib.books@.contains(b) && !b.missing && !"news:"@.is_prefix_of(b.path@)
            && !"wiki:"@.is_prefix_of(b.path@),
{
    let list = lemma_shelf_list(lib, shelf);
    lemma_listed(lib.books@, |b: BookEntry| !b.is_hidden(), |b: BookEntry| shelf_key(b), list, b);
    if lib.current is Some && spot(list, lib.current->0) is Some {
        lemma_spot_any(list, lib.current->0);
        lemma_moved_to_front(list, spot(list, lib.current->0)->0, b);
    }
}

proof fn lemma_moved_to_front(list: Seq<BookEntry>, k: int, b: BookEntry)
    requires
        0 <= k < list.len(),
    ensures
        list.remove(k).insert(0, list[k]).contains(b) <==> list.contains(b),
{
    let shelf = list.remove(k).insert(0, list[k]);
    if shelf.contains(b) {
        let p = choose|p: int| 0 <= p < shelf.len() && shelf[p] == b;
        assert(list[if p == 0 { k } else if p - 1 < k { p - 1 } else { p }] == b);
    }
    if list.contains(b) {
        let p = choose|p: int| 0 <= p < list.len() && list[p] == b;
        assert(shelf[if p == k { 0 } else if p < k { p + 1 } else { p }] == b);
    }
}

/// Of two books on the shelf, neither of them the current one, the one opened or added last stands first: the later
/// of its two times is no earlier than the later of the other's. Where those are the same, the titles are in order.
pub proof fn law_recent_books_stand_first(lib: Library, shelf: Seq<BookEntry>, i: int, j: int)
    requires
        is_shelf(lib, shelf),
        0 <= i < j < shelf.len(),
        lib.current != Some(shelf[i].id),
        lib.current != Some(shelf[j].id),
    ensures
        ({
            let first = vstd::math::max(shelf[i].last_opened as int, shelf[i].added as int);
            let second = vstd::math::max(shelf[j].last_opened as int, shelf[j].added as int);
            first >= second && (first == second ==> !order::text_before(shelf[j].title@, shelf[i].title@))
        }),
{
    let list = lemma_shelf_list(lib, shelf);
    let key = |b: BookEntry| shelf_key(b);
    lemma_listing_in_order(lib.books@, |b: BookEntry| !b.is_hidden(), key, list);
    if lib.current is Some && spot(list, lib.current->0) is Some {
        let k = spot(list, lib.current->0)->0;
        lemma_spot_any(list, lib.current->0);
        assert(i > 0);
        let a = if i - 1 < k { i - 1 } else { i };
        let b = if j - 1 < k { j - 1 } else { j };
        assert(shelf[i] == list[a] && shelf[j] == list[b]);
        assert(!order::key_before(key(list[b]), key(list[a])));
    } else {
        assert(!order::key_before(key(list[j]), key(list[i])));
    }
}

/// A book opened later than every other time in the index stands first on the shelf, or behind the current book
/// alone.
pub proof fn law_last_opened_stands_in_front(lib: Library, shelf: Seq<BookEntry>, k: int)
    requires
        is_shelf(lib, shelf),
        distinct(shelf),
        0 <= k < shelf.len(),
        forall|m: int|
            0 <= m < shelf.len() && m != k ==> (#[trigger] shelf[m]).last_opened < shelf[k].last_opened && shelf[m].added
                < shelf[k].last_opened,
    ensures
        k == 0 || (k == 1 && lib.current == Some(shelf[0].id)),
{
    if lib.current == Some(shelf[k].id) {
        law_shelf_begins_with_the_current(lib, shelf, k);
        if k > 0 {
            assert(shelf[0].id != shelf[k].id);
        }
    } else if k > 0 {
        if lib.current != Some(shelf[0].id) {
            law_recent_books_stand_first(lib, shelf, 0, k);
        } else if k > 1 {
            assert(shelf[0].id != shelf[1].id);
            law_recent_books_stand_first(lib, shelf, 1, k);
        }
    }
}

/// A visible book that is opened leads the shelf from then on, with the time at which it was opened.
pub proof fn law_opened_book_leads_the_shelf(before: Library, after: Library, id: BookId, now: u32, shelf: Seq<BookEntry>)
    requires
        distinct(before.books@),
        spot(before.books@, id) is Some,
        !before.books@[spot(before.books@, id)->0].is_hidden(),
        after.books@ == with_book(before.books@, id, |b: BookEntry| opened_book(b, now)),
        after.current == Some(id),
        is_shelf(after, shelf),
    ensures
        shelf.len() > 0,
        shelf[0].id == id,
        shelf[0].last_opened == now,
        shelf[0].status != Status::Unread,
{
    lemma_spot_any(before.books@, id);
    let i = spot(before.books@, id)->0;
    let b = after.books@[i];
    assert(after.books@.contains(b));
    law_shelf_holds_the_visible(after, shelf, b);
    let p = choose|p: int| 0 <= p < shelf.len() && shelf[p] == b;
    law_shelf_begins_with_the_current(after, shelf, p);
    law_shelf_holds_the_visible(after, shelf, shelf[0]);
    let q = choose|q: int| 0 <= q < after.books@.len() && after.books@[q] == shelf[0];
    if q != i {
        assert(before.books@[q].id != before.books@[i].id);
    }
}

/// The visible books by title: every one of them, each title no later than the next when case and a leading article
/// are left out.
pub proof fn law_titles_are_in_order(books: Seq<BookEntry>, list: Seq<BookEntry>, b: BookEntry, i: int, j: int)
    requires
        is_title_list(books, list),
        0 <= i < j < list.len(),
    ensures
        !order::text_before(title_key(list[j].title@), title_key(list[i].title@)),
        list.contains(b) <==> books.contains(b) && !b.is_hidden(),
{
    let key = |b: BookEntry| by_title_key(b);
    let keep = |b: BookEntry| !b.is_hidden();
    lemma_listing_in_order(books, keep, key, list);
    assert(!order::key_before(key(list[j]), key(list[i])));
    lemma_listed(books, keep, key, list, b);
}

proof fn lemma_listed(
    books: Seq<BookEntry>,
    keep: spec_fn(BookEntry) -> bool,
    key: spec_fn(BookEntry) -> KeyView,
    list: Seq<BookEntry>,
    b: BookEntry,
)
    requires
        is_listing(books, keep, key, list),
    ensures
        list.contains(b) <==> books.contains(b) && keep(b),
{
    law_listing_is_complete(books, keep, key, list);
    if list.contains(b) {
        let p = choose|p: int| 0 <= p < list.len() && list[p] == b;
        assert(books.contains(list[p]));
    }
    if books.contains(b) && keep(b) {
        let i = choose|i: int| 0 <= i < books.len() && books[i] == b;
        assert(list.contains(books[i]));
    }
}

/// A leading article does not count in the order of titles: "The", "A" or "An" before a title leaves its place as it
/// is.
pub proof fn law_articles_do_not_count(plain: Seq<char>, full: Seq<char>)
    requires
        ({
            let p = text::lower(text::trimmed(plain));
            let f = text::lower(text::trimmed(full));
            &&& !"the "@.is_prefix_of(p) && !"a "@.is_prefix_of(p) && !"an "@.is_prefix_of(p)
            &&& f == "the "@ + p || f == "a "@ + p || f == "an "@ + p
        }),
    ensures
        title_key(full) == title_key(plain),
        title_key(plain) == text::lower(text::trimmed(plain)),
{
    reveal_strlit("the ");
    reveal_strlit("a ");
    reveal_strlit("an ");
    let p = text::lower(text::trimmed(plain));
    let f = text::lower(text::trimmed(full));
    if f == "the "@ + p {
        assert(f.skip(4) =~= p);
        assert("the "@.is_prefix_of(f)) by {
            assert(f.subrange(0, 4) =~= "the "@);
        }
    } else if f == "a "@ + p {
        assert(f[0] == 'a' && f[1] == ' ');
        assert("the "@[0] == 't');
        assert(f.skip(2) =~= p);
        assert(f.subrange(0, 2) =~= "a "@);
    } else {
        assert(f[0] == 'a' && f[1] == 'n');
        assert("the "@[0] == 't' && "a "@[1] == ' ');
        assert(f.skip(3) =~= p);
        assert(f.subrange(0, 3) =~= "an "@);
    }
}

/// The visible books by author: of two books, the first author of the one is no later than that of the other, in
/// lower case, and a book without authors stands before those with one. Books of one author stand by their number in
/// a series, none counting as zero, and then by title.
pub proof fn law_authors_are_in_order(books: Seq<BookEntry>, list: Seq<BookEntry>, i: int, j: int)
    requires
        is_author_list(books, list),
        0 <= i < j < list.len(),
    ensures
        ({
            let a = list[i];
            let b = list[j];
            let number = |e: BookEntry|
                match e.series {
                    Some(s) => s.1 as int,
                    None => 0,
                };
            &&& a.authors@.len() > 0 && b.authors@.len() > 0 ==> !order::text_before(
                text::lower(b.authors@[0]@),
                text::lower(a.authors@[0]@),
            )
            &&& a.authors@.len() > 0 && b.authors@.len() == 0 ==> text::lower(a.authors@[0]@).len() == 0
            &&& a.authors@.len() > 0 && b.authors@.len() > 0 && text::lower(a.authors@[0]@) == text::lower(b.authors@[0]@)
                ==> number(a) <= number(b) && (number(a) == number(b) ==> !order::text_before(
                title_key(b.title@),
                title_key(a.title@),
            ))
        }),
{
    let key = |b: BookEntry| by_author_key(b);
    lemma_listing_in_order(books, |b: BookEntry| !b.is_hidden(), key, list);
    assert(!order::key_before(key(list[j]), key(list[i])));
}

/// The visible books of a series: every one of them; names of series in order without regard to case, and the books
/// of one series by their number, then by title.
pub proof fn law_series_are_in_order(books: Seq<BookEntry>, list: Seq<BookEntry>, x: BookEntry, i: int, j: int)
    requires
        is_series_list(books, list),
        0 <= i < j < list.len(),
    ensures
        list.contains(x) <==> books.contains(x) && !x.is_hidden() && x.series is Some,
        list[i].series is Some && list[j].series is Some,
        !order::text_before(text::lower((list[j].series->0).0@), text::lower((list[i].series->0).0@)),
        (list[i].series->0).0@ == (list[j].series->0).0@ ==> (list[i].series->0).1 <= (list[j].series->0).1,
        list[i].series->0 == list[j].series->0 ==> !order::text_before(
            title_key(list[j].title@),
            title_key(list[i].title@),
        ),
{
    let key = |b: BookEntry| by_series_key(b);
    let keep = |b: BookEntry| !b.is_hidden() && b.series is Some;
    lemma_listing_in_order(books, keep, key, list);
    assert(!order::key_before(key(list[j]), key(list[i])));
    lemma_listed(books, keep, key, list, x);
    lemma_listed(books, keep, key, list, list[i]);
    lemma_listed(books, keep, key, list, list[j]);
    law_listing_is_complete(books, keep, key, list);
}

/// A collection lists its visible books, those that hold its number, and no others.
pub proof fn law_collection_lists_its_books(books: Seq<BookEntry>, id: u16, list: Seq<BookEntry>, b: BookEntry)
    requires
        is_collection_list(books, id, list),
    ensures
        list.contains(b) <==> books.contains(b) && !b.is_hidden() && b.collections@.contains(id),
        forall|i: int, j: int|
            0 <= i < j < list.len() ==> !order::text_before(
                title_key((#[trigger] list[j]).title@),
                title_key((#[trigger] list[i]).title@),
            ),
{
    let key = |b: BookEntry| by_title_key(b);
    let keep = |b: BookEntry| !b.is_hidden() && b.collections@.contains(id);
    lemma_listing_in_order(books, keep, key, list);
    lemma_listed(books, keep, key, list, b);
    assert forall|i: int, j: int| 0 <= i < j < list.len() implies !order::text_before(
        title_key((#[trigger] list[j]).title@),
        title_key((#[trigger] list[i]).title@),
    ) by {
        assert(!order::key_before(key(list[j]), key(list[i])));
    }
}

/// The books still to be taken in are those on the card that wait, and the one added first is taken first.
pub proof fn law_pending_books_wait_in_turn(books: Seq<BookEntry>, list: Seq<BookEntry>, b: BookEntry)
    requires
        is_pending_list(books, list),
    ensures
        list.contains(b) <==> books.contains(b) && !b.missing && b.ingest == IngestState::Pending,
        forall|i: int, j: int| 0 <= i < j < list.len() ==> (#[trigger] list[i]).added <= (#[trigger] list[j]).added,
{
    let key = |b: BookEntry| number_key(b.added as int);
    let keep = |b: BookEntry| !b.missing && b.ingest == IngestState::Pending;
    lemma_listing_in_order(books, keep, key, list);
    lemma_listed(books, keep, key, list, b);
    assert forall|i: int, j: int| 0 <= i < j < list.len() implies (#[trigger] list[i]).added <= (#[trigger] list[j]).added by {
        assert(!order::key_before(key(list[j]), key(list[i])));
    }
}

/// The books finished in a span of days are those with a day in it, its ends counted, the earliest day first.
pub proof fn law_finished_books_are_listed_by_day(
    books: Seq<BookEntry>,
    from: u16,
    to: u16,
    list: Seq<BookEntry>,
    b: BookEntry,
)
    requires
        is_finished_list(books, from, to, list),
    ensures
        list.contains(b) <==> books.contains(b) && (b.stats.finished matches Some(d) && from <= d && d <= to),
        forall|i: int, j: int|
            0 <= i < j < list.len() ==> ((#[trigger] list[i]).stats.finished->0) <= ((
            #[trigger] list[j]).stats.finished->0),
{
    let key = |b: BookEntry| number_key(finished_day(b));
    let keep = |b: BookEntry| b.stats.finished matches Some(d) && from <= d <= to;
    lemma_listing_in_order(books, keep, key, list);
    law_listing_is_complete(books, keep, key, list);
    lemma_listed(books, keep, key, list, b);
    assert forall|i: int, j: int| 0 <= i < j < list.len() implies ((#[trigger] list[i]).stats.finished->0) <= ((
    #[trigger] list[j]).stats.finished->0) by {
        assert(!order::key_before(key(list[j]), key(list[i])));
        assert(keep(list[i]) && keep(list[j]));
    }
}

/// A book read to its end is among the books finished that day, all of it read, and stays there until it is marked
/// as not finished; then it has no day, is being read, and its start is as it was.
pub proof fn law_finished_book_is_listed(
    books: Seq<BookEntry>,
    id: BookId,
    today: u16,
    from: u16,
    to: u16,
    list: Seq<BookEntry>,
)
    requires
        spot(books, id) is Some,
        from <= today <= to,
        is_finished_list(with_book(books, id, |b: BookEntry| ended_book(b, today)), from, to, list),
    ensures
        ({
            let b = books[spot(books, id)->0];
            let e = ended_book(b, today);
            let back = marked_book(e, false, today);
            &&& list.contains(e)
            &&& e.id == b.id && e.percent_read() == 100
            &&& e.stats.started is Some && (b.stats.started is Some ==> e.stats.started == b.stats.started)
            &&& e.loc == b.loc && e.last_opened == b.last_opened
            &&& back.stats.finished is None && back.status == Status::Reading
            &&& back.stats.started == e.stats.started && back.loc == b.loc
            &&& marked_book(b, true, today).stats.finished == Some(today) && marked_book(b, true, today).percent_read() == 100
        }),
{
    lemma_spot_any(books, id);
    let i = spot(books, id)->0;
    let after = with_book(books, id, |b: BookEntry| ended_book(b, today));
    assert(after[i] == ended_book(books[i], today));
    law_finished_books_are_listed_by_day(after, from, to, list, after[i]);
}

/// Opening a book again only moves its time on: it is as if only the last opening had been. A book that was opened
/// is no longer unread; one that was finished stays so; its position, its place in the index and its statistics stay.
pub proof fn law_opening_again(b: BookEntry, once: u32, again: u32)
    ensures
        opened_book(opened_book(b, once), again) == opened_book(b, again),
        opened_book(b, again).last_opened == again,
        opened_book(b, again).status != Status::Unread,
        b.status != Status::Unread ==> opened_book(b, again).status == b.status,
        b.status == Status::Unread ==> opened_book(b, again).status == Status::Reading,
        opened_book(b, again).loc == b.loc && opened_book(b, again).added == b.added,
        opened_book(b, again).stats == b.stats && opened_book(b, again).id == b.id,
{
}

/// A position set is the one found afterwards, and the last one set counts; a book with a position is no longer
/// unread, and one that was finished stays so.
pub proof fn law_last_position_counts(b: BookEntry, first: Loc, then: Loc)
    ensures
        moved_book(b, then).loc == then,
        moved_book(moved_book(b, first), then) == moved_book(b, then),
        moved_book(b, then).status != Status::Unread,
        b.status != Status::Unread ==> moved_book(b, then).status == b.status,
        b.status == Status::Unread ==> moved_book(b, then).status == Status::Reading,
        moved_book(b, then).last_opened == b.last_opened && moved_book(b, then).stats == b.stats,
{
}

/// The share of a book that is read is the share of its characters before the position, in whole percents rounded
/// down.
pub proof fn law_percent_is_the_share_read(b: BookEntry)
    requires
        b.status != Status::Finished,
        0 < b.chars,
        b.loc.chars <= b.chars,
    ensures
        b.percent_read() * b.chars <= b.loc.chars * 100 < (b.percent_read() + 1) * b.chars,
        b.loc.chars == b.chars ==> b.percent_read() == 100,
{
    let x = b.loc.chars as int * 100;
    let d = b.chars as int;
    assert((x / d) * d <= x < (x / d + 1) * d && (x <= 100 * d ==> x / d <= 100)) by (nonlinear_arith)
        requires
            d > 0,
    ;
    if b.loc.chars == b.chars {
        assert((d * 100) / d == 100) by (nonlinear_arith)
            requires
                d > 0,
        ;
    }
}

/// The line of authors begins with the first of them; two are joined by "&"; of more, two are named and the others
/// counted.
pub proof fn law_author_line_names_the_first(b: BookEntry)
    requires
        b.authors@.len() > 0,
    ensures
        b.authors@[0]@.is_prefix_of(b.authors_shown()),
        b.authors@.len() == 1 ==> b.authors_shown() == b.authors@[0]@,
        b.authors@.len() == 2 ==> b.authors_shown() == b.authors@[0]@ + " & "@ + b.authors@[1]@,
        b.authors@.len() > 2 ==> b.authors_shown() == b.authors@[0]@ + ", "@ + b.authors@[1]@ + " +"@ + text::decimal(
            (b.authors@.len() - 2) as nat,
        ),
{
    let a = text::texts(b.authors@);
    assert(a[0] == b.authors@[0]@);
    assert(b.authors_shown().subrange(0, a[0].len() as int) =~= a[0]);
}

/// The next book of a series is one of the same series with a larger number, on the card, and no other such book has
/// a number between.
pub proof fn law_next_in_series_is_the_nearest(
    books: Seq<BookEntry>,
    id: BookId,
    name: Seq<char>,
    n: u16,
    k: int,
    j: int,
)
    requires
        is_next(books, id, name, n, k),
        0 <= j < books.len(),
    ensures
        books[k].series is Some,
        (books[k].series->0).0@ == name,
        (books[k].series->0).1 > n,
        books[j].series is Some && (books[j].series->0).0@ == name && (books[j].series->0).1 > n && !books[j].missing
            && books[j].id != id ==> (books[k].series->0).1 <= (books[j].series->0).1,
        books[k].id != id,
        !books[k].missing,
{
    assert(follows(books[k], id, name, n));
}

/// A position that comes back from the card replaces the book's own, but a book opened later since keeps that time,
/// and a start that is known stays.
pub proof fn law_record_brings_the_position(b: BookEntry, r: PosRecord)
    ensures
        with_record(b, r).loc == r.loc,
        with_record(b, r).status == r.status,
        with_record(b, r).stats.finished == r.finished,
        with_record(b, r).last_opened == vstd::math::max(b.last_opened as int, r.last_opened as int),
        b.stats.started is Some ==> with_record(b, r).stats.started == b.stats.started,
        b.stats.started is None ==> with_record(b, r).stats.started == r.started,
        with_record(b, r).id == b.id && with_record(b, r).path == b.path && with_record(b, r).title == b.title,
{
}

/// Every book that was opened or has been begun has its position among those saved.
pub proof fn law_positions_hold_every_book_begun(books: Seq<BookEntry>, i: int)
    requires
        0 <= i < books.len(),
        books[i].status != Status::Unread || books[i].last_opened > 0,
    ensures
        exists|k: int|
            0 <= k < records(books).len() && (#[trigger] records(books)[k]).id == books[i].id && records(books)[k].loc
                == books[i].loc && records(books)[k].status == books[i].status && records(books)[k].last_opened
                == books[i].last_opened && records(books)[k].started == books[i].stats.started && records(books)[k].finished
                == books[i].stats.finished,
    decreases books.len(),
{
    if i == books.len() - 1 {
        assert(records(books)[records(books).len() - 1] == record_of(books[i]));
    } else {
        let front = books.drop_last();
        assert(front[i] == books[i]);
        law_positions_hold_every_book_begun(front, i);
        let k = choose|k: int|
            0 <= k < records(front).len() && (#[trigger] records(front)[k]).id == books[i].id && records(front)[k].loc
                == books[i].loc && records(front)[k].status == books[i].status && records(front)[k].last_opened
                == books[i].last_opened && records(front)[k].started == books[i].stats.started && records(front)[k].finished
                == books[i].stats.finished;
        assert(records(books)[k] == records(front)[k]);
    }
}

/// A search finds a book exactly where the book is visible and every word of the query, in lower case, stands in the
/// lower-case text of its title, its authors and its series; a query without words finds nothing.
pub proof fn law_found_books_hold_every_word(books: Seq<BookEntry>, query: Seq<char>, b: BookEntry)
    ensures
        found(books, query).contains(b) <==> books.contains(b) && !b.is_hidden() && text::words(query).len() > 0 && (
        forall|w: Seq<char>| #[trigger]
            text::words(query).contains(w) ==> text::has_text(
                text::lower(
                    b.title@ + " "@ + text::joined_by(text::texts(b.authors@), " "@) + " "@ + (match b.series {
                        Some(s) => s.0@,
                        None => Seq::empty(),
                    }),
                ),
                text::lower(w),
            )),
{
    let pred = |b: BookEntry| text::words(query).len() > 0 && !b.is_hidden() && matches_query(b, query);
    if found(books, query).contains(b) {
        books.lemma_filter_contains_rev(pred, b);
        let k = choose|k: int| 0 <= k < found(books, query).len() && found(books, query)[k] == b;
        books.lemma_filter_pred(pred, k);
        assert forall|w: Seq<char>| #[trigger] text::words(query).contains(w) implies text::has_text(
            haystack(b),
            text::lower(w),
        ) by {
            let m = choose|m: int| 0 <= m < text::words(query).len() && text::words(query)[m] == w;
            assert(text::words(query)[m] == w);
        }
    }
    if books.contains(b) && !b.is_hidden() && text::words(query).len() > 0 && (forall|w: Seq<char>| #[trigger]
        text::words(query).contains(w) ==> text::has_text(haystack(b), text::lower(w))) {
        assert forall|k: int| 0 <= k < text::words(query).len() implies text::has_text(
            haystack(b),
            text::lower(#[trigger] text::words(query)[k]),
        ) by {
            assert(text::words(query).contains(text::words(query)[k]));
        }
        let i = choose|i: int| 0 <= i < books.len() && books[i] == b;
        books.lemma_filter_contains(pred, i);
    }
}

/// More words never find more: a book found by the longer query is found by the shorter one.
pub proof fn law_more_words_find_no_more(books: Seq<BookEntry>, query: Seq<char>, more: Seq<char>, b: BookEntry)
    requires
        text::words(query).len() > 0,
        found(books, query.push(' ') + more).contains(b),
    ensures
        found(books, query).contains(b),
{
    text::law_words_of_two(query, more);
    law_found_books_hold_every_word(books, query.push(' ') + more, b);
    law_found_books_hold_every_word(books, query, b);
    let (a, c) = (text::words(query), text::words(more));
    assert forall|w: Seq<char>| #[trigger] a.contains(w) implies text::words(query.push(' ') + more).contains(w) by {
        let m = choose|m: int| 0 <= m < a.len() && a[m] == w;
        assert((a + c)[m] == w);
    }
}

/// The order of the words does not matter: two queries of the same words find the same books.
pub proof fn law_order_of_words_does_not_matter(books: Seq<BookEntry>, one: Seq<char>, other: Seq<char>)
    ensures
        found(books, one.push(' ') + other) == found(books, other.push(' ') + one),
{
    let p = one.push(' ') + other;
    let q = other.push(' ') + one;
    text::law_words_of_two(one, other);
    text::law_words_of_two(other, one);
    let (a, c) = (text::words(one), text::words(other));
    assert(text::words(p) == a + c && text::words(q) == c + a);
    assert forall|b: BookEntry| matches_query(b, p) == #[trigger] matches_query(b, q) by {
        assert forall|k: int| matches_query(b, p) && 0 <= k < (c + a).len() implies text::has_text(
            haystack(b),
            text::lower(#[trigger] (c + a)[k]),
        ) by {
            let m = if k < c.len() { a.len() + k } else { k - c.len() };
            assert((c + a)[k] == (a + c)[m]);
            assert(text::has_text(haystack(b), text::lower(text::words(p)[m])));
        }
        assert forall|k: int| matches_query(b, q) && 0 <= k < (a + c).len() implies text::has_text(
            haystack(b),
            text::lower(#[trigger] (a + c)[k]),
        ) by {
            let m = if k < a.len() { c.len() + k } else { k - a.len() };
            assert((a + c)[k] == (c + a)[m]);
            assert(text::has_text(haystack(b), text::lower(text::words(q)[m])));
        }
    }
    let f = |b: BookEntry| text::words(p).len() > 0 && !b.is_hidden() && matches_query(b, p);
    let g = |b: BookEntry| text::words(q).len() > 0 && !b.is_hidden() && matches_query(b, q);
    assert forall|b: BookEntry| #[trigger] f(b) == g(b) by {
        assert(matches_query(b, p) == matches_query(b, q));
    }
    assert(f =~= g);
}

/// Whether this is the index with one collection more.
pub open spec fn collection_added(o: Library, name: Seq<char>, id: u16, n: Library) -> bool {
    &&& id == if o.next_collection > 1 {
        o.next_collection
    } else {
        1
    }
    &&& n.next_collection == id + 1
    &&& n.collections@.len() == o.collections@.len() + 1
    &&& n.collections@.drop_last() == o.collections@
    &&& n.collections@.last().id == id && n.collections@.last().name@ == name
    &&& n.books == o.books && n.dirty
}

/// Whether a number was dropped from a list of numbers and nothing else changed.
pub open spec fn dropped(was: Seq<u16>, now: Seq<u16>, id: u16) -> bool {
    forall|c: u16| #[trigger] now.contains(c) <==> was.contains(c) && c != id
}

proof fn lemma_dropped(was: Seq<u16>, id: u16)
    ensures
        dropped(was, was.filter(|c: u16| c != id), id),
{
    let keep = |c: u16| c != id;
    let now = was.filter(keep);
    assert forall|c: u16| #[trigger] now.contains(c) <==> was.contains(c) && c != id by {
        if now.contains(c) {
            let k = choose|k: int| 0 <= k < now.len() && now[k] == c;
            was.lemma_filter_pred(keep, k);
            was.lemma_filter_contains_rev(keep, c);
        }
        if was.contains(c) && c != id {
            let k = choose|k: int| 0 <= k < was.len() && was[k] == c;
            was.lemma_filter_contains(keep, k);
        }
    }
}

/// Whether a collection was taken out of a list of collections and nothing else changed.
pub open spec fn taken_out(was: Seq<Collection>, now: Seq<Collection>, id: u16) -> bool {
    forall|c: Collection| #[trigger] now.contains(c) <==> was.contains(c) && c.id != id
}

proof fn lemma_collections_kept(was: Seq<Collection>, id: u16)
    ensures
        taken_out(was, was.filter(|c: Collection| c.id != id), id),
{
    let keep = |c: Collection| c.id != id;
    let now = was.filter(keep);
    assert forall|c: Collection| #[trigger] now.contains(c) <==> was.contains(c) && c.id != id by {
        if now.contains(c) {
            let k = choose|k: int| 0 <= k < now.len() && now[k] == c;
            was.lemma_filter_pred(keep, k);
            was.lemma_filter_contains_rev(keep, c);
        }
        if was.contains(c) && c.id != id {
            let k = choose|k: int| 0 <= k < was.len() && was[k] == c;
            was.lemma_filter_contains(keep, k);
        }
    }
}

/// Whether this is the index with this collection gone.
pub open spec fn collection_removed(o: Library, id: u16, n: Library) -> bool {
    &&& taken_out(o.collections@, n.collections@, id)
    &&& n.books@.len() == o.books@.len()
    &&& forall|i: int|
        #![trigger n.books@[i]]
        0 <= i < o.books@.len() ==> n.books@[i] == (BookEntry { collections: n.books@[i].collections, ..o.books@[i] }) && dropped(
            o.books@[i].collections@,
            n.books@[i].collections@,
            id,
        )
}

/// Whether this is the index with another name for this collection.
pub open spec fn collection_renamed(o: Library, id: u16, name: Seq<char>, n: Library) -> bool {
    &&& n.books == o.books
    &&& n.collections@.len() == o.collections@.len()
    &&& forall|i: int|
        #![trigger n.collections@[i]]
        0 <= i < o.collections@.len() ==> n.collections@[i].id == o.collections@[i].id && (if o.is_collection(id, i) {
            n.collections@[i].name@ == name
        } else {
            n.collections@[i] == o.collections@[i]
        })
}

/// Whether this is the index that was stored, with the positions stored beside it, or an empty one.
pub open spec fn is_loaded(stored: Option<Library>, positions: Option<Vec<PosRecord>>, default_sources: Vec<String>, r: Library) -> bool {
    &&& r.version == VERSION && !r.dirty && !r.dirty_pos && r.generation == 0
    &&& r.books@ == merged(
        if stored matches Some(s) && s.version == VERSION { (stored->0).books@ } else { Seq::empty() },
        match positions {
            Some(p) => p@,
            None => Seq::empty(),
        },
    )
    &&& r.sources == if stored matches Some(s) && s.version == VERSION && s.sources@.len() > 0 {
        (stored->0).sources
    } else {
        default_sources
    }
    &&& stored is Some && (stored->0).version == VERSION ==> r.collections == (stored->0).collections && r.current == (
    stored->0).current
}

/// A new collection gets a number that no collection had before it, as long as numbers are given out in order, and the
/// collections there are stay as they are.
pub proof fn law_new_collections_have_new_numbers(o: Library, name: Seq<char>, id: u16, n: Library, i: int)
    requires
        collection_added(o, name, id, n),
        0 <= i < o.collections@.len(),
        o.collections@[i].id < o.next_collection,
    ensures
        id != o.collections@[i].id,
        id > 0,
        n.collections@[i] == o.collections@[i],
        n.next_collection > id,
        n.collections@[o.collections@.len() as int].id == id,
        n.collections@[o.collections@.len() as int].name@ == name,
{
    assert(n.collections@.drop_last()[i] == n.collections@[i]);
}

/// After a collection was removed no book is in it and it is not listed; every other collection and membership stays.
pub proof fn law_removed_collection_is_gone(o: Library, id: u16, n: Library, i: int, other: u16)
    requires
        collection_removed(o, id, n),
        0 <= i < o.books@.len(),
        other != id,
    ensures
        !n.books@[i].collections@.contains(id),
        n.books@[i].collections@.contains(other) == o.books@[i].collections@.contains(other),
        n.books@[i].id == o.books@[i].id && n.books@[i].title == o.books@[i].title && n.books@[i].loc == o.books@[i].loc,
        forall|k: int| 0 <= k < n.collections@.len() ==> (#[trigger] n.collections@[k]).id != id,
        forall|c: Collection| c.id != id ==> #[trigger] o.collections@.contains(c) == n.collections@.contains(c),
{
    let now = n.books@[i].collections@;
    assert(!now.contains(id));
    assert forall|k: int| 0 <= k < n.collections@.len() implies (#[trigger] n.collections@[k]).id != id by {
        assert(n.collections@.contains(n.collections@[k]));
    }
}

/// A collection that is renamed keeps its number and its books, and no other changes its name.
pub proof fn law_renamed_collection_keeps_its_books(o: Library, id: u16, name: Seq<char>, n: Library, i: int, j: int)
    requires
        collection_renamed(o, id, name, n),
        o.is_collection(id, i),
        0 <= j < o.collections@.len(),
    ensures
        n.books == o.books,
        n.collections@[i].name@ == name,
        n.collections@[i].id == id,
        j != i ==> n.collections@[j] == o.collections@[j],
{
    if j != i {
        if o.is_collection(id, j) {
            if j < i {
                assert(o.collections@[j].id != id);
            } else {
                assert(o.collections@[i].id != id);
            }
        }
        assert(n.collections@[j] == o.collections@[j]);
    }
    assert(n.collections@[i].id == o.collections@[i].id);
}

/// An index of another version is not taken: the library is empty then, with the sources it starts out with.
pub proof fn law_other_versions_are_not_taken(stored: Option<Library>, default_sources: Vec<String>, r: Library)
    requires
        is_loaded(stored, None, default_sources, r),
    ensures
        stored is None || stored->0.version != 1 ==> r.books@.len() == 0 && r.sources == default_sources,
        stored is Some && (stored->0).version == 1 ==> r.books@ == (stored->0).books@ && r.collections == (
        stored->0).collections && r.current == (stored->0).current,
        stored is Some && (stored->0).version == 1 && (stored->0).sources@.len() > 0 ==> r.sources == (stored->0).sources,
        !r.dirty && !r.dirty_pos,
{
}

/// A book is found by its path whatever the case of its letters, and the first one with it is.
pub proof fn law_paths_are_found_in_any_case(lib: Library, path: Seq<char>, other: Seq<char>, i: int)
    requires
        text::ascii_lower(path) == text::ascii_lower(other),
    ensures
        lib.is_at(path, i) == lib.is_at(other, i),
        0 <= i < lib.books@.len() && lib.books@[i].path@ == path && (forall|j: int|
            0 <= j < i ==> text::ascii_lower((#[trigger] lib.books@[j]).path@) != text::ascii_lower(path)) ==> lib.is_at(
            other,
            i,
        ),
{
}

impl BookEntry {
    /// How many characters lie behind the position.
    pub open spec fn left_to_read(self) -> int {
        if self.loc.chars <= self.chars {
            self.chars - self.loc.chars
        } else {
            0
        }
    }
}

/// What is left of a book and what is read make the book.
pub proof fn law_read_and_left_make_the_book(b: BookEntry)
    requires
        b.loc.chars <= b.chars,
    ensures
        b.left_to_read() + b.loc.chars == b.chars,
        b.loc.chars == b.chars ==> b.left_to_read() == 0,
{
}

/// Whether a change is marked as one of the index: it will be saved, and whoever looks sees that there was one.
pub open spec fn touches_index(o: Library, n: Library) -> bool {
    n.dirty && n.generation != o.generation
}

/// Whether a change is marked as one of the positions.
pub open spec fn touches_positions(o: Library, n: Library) -> bool {
    n.dirty_pos && n.generation != o.generation
}

/// What was changed is written when the library is saved next, and seen before that: the index asks to be saved, and its
/// generation is another one.
pub proof fn law_changes_are_seen_and_saved(o: Library, n: Library, ask: SaveAsk, then: SaveAsk)
    requires
        touches_index(o, n) || touches_positions(o, n),
        asks_next(ask, n.dirty, n.dirty_pos, SaveEvent::Start, n.books@),
        asks_next(then, n.dirty, n.dirty_pos, SaveEvent::Root(true), n.books@),
    ensures
        n.generation != o.generation,
        ask is MakeRoot,
        touches_index(o, n) ==> then is WriteIndex,
        touches_positions(o, n) ==> then is WriteIndex || (then matches SaveAsk::WritePositions(recs) && recs@ == records(n.books@)),
{
}

/// A book with its pages counted for a layout.
pub open spec fn paged_book(b: BookEntry, key: u32, pages: u32) -> BookEntry {
    BookEntry { pages_total: Some((key, pages)), ..b }
}

/// The pages of a book are those counted last.
pub proof fn law_last_count_of_pages_stays(b: BookEntry, key: u32, pages: u32, other: u32, more: u32)
    ensures
        paged_book(b, key, pages).pages_total == Some((key, pages)),
        paged_book(paged_book(b, key, pages), other, more) == paged_book(b, other, more),
        paged_book(b, key, pages).loc == b.loc && paged_book(b, key, pages).id == b.id,
{
}

/// Whether this is the index without this book, and the book.
pub open spec fn is_removal(o: Library, id: BookId, n: Library, r: Option<BookEntry>) -> bool {
    match spot(o.books@, id) {
        None => r is None && n == o,
        Some(i) => {
            &&& r == Some(o.books@[i])
            &&& n.books@ == o.books@.remove(i)
            &&& n.current == if o.current == Some(id) {
                None
            } else {
                o.current
            }
            &&& touches_index(o, n)
        },
    }
}

/// A book that is removed is handed back and gone from the index, and is not the current book any more; every other
/// book stays, and so does the current one.
pub proof fn law_removed_book_is_handed_back(o: Library, id: BookId, n: Library, r: Option<BookEntry>, b: BookEntry)
    requires
        is_removal(o, id, n, r),
        distinct(o.books@),
    ensures
        r matches Some(e) ==> e.id == id && o.books@.contains(e) && n.books@.len() == o.books@.len() - 1,
        n.current != Some(id) || r is None,
        o.current != Some(id) ==> n.current == o.current,
        b.id != id ==> n.books@.contains(b) == o.books@.contains(b),
        r is None ==> n == o && forall|i: int| 0 <= i < o.books@.len() ==> (#[trigger] o.books@[i]).id != id,
        r is Some ==> forall|i: int| 0 <= i < n.books@.len() ==> (#[trigger] n.books@[i]).id != id,
{
    lemma_spot_any(o.books@, id);
    if let Some(i) = spot(o.books@, id) {
        assert(o.books@.contains(o.books@[i]));
        let now = o.books@.remove(i);
        assert forall|k: int| 0 <= k < now.len() implies (#[trigger] now[k]).id != id by {
            let j = if k < i { k } else { k + 1 };
            assert(now[k] == o.books@[j]);
            if j < i {
                assert(o.books@[j].id != o.books@[i].id);
            } else {
                assert(o.books@[i].id != o.books@[j].id);
            }
        }
        if b.id != id {
            if o.books@.contains(b) {
                let j = choose|j: int| 0 <= j < o.books@.len() && o.books@[j] == b;
                assert(now[if j < i { j } else { j - 1 }] == b);
            }
            if now.contains(b) {
                let k = choose|k: int| 0 <= k < now.len() && now[k] == b;
                assert(o.books@[if k < i { k } else { k + 1 }] == b);
            }
        }
    }
}

/// Whether a book that is at its end was not finished before.
pub open spec fn ends_now(books: Seq<BookEntry>, id: BookId) -> bool {
    spot(books, id) matches Some(i) && books[i].status != Status::Finished
}

/// A book comes to its end once: after that it is finished already.
pub proof fn law_books_end_once(books: Seq<BookEntry>, id: BookId, today: u16)
    requires
        ends_now(books, id),
        distinct(books),
    ensures
        !ends_now(with_book(books, id, |b: BookEntry| ended_book(b, today)), id),
{
    let f = |b: BookEntry| ended_book(b, today);
    lemma_spot_any(books, id);
    let after = with_book(books, id, f);
    lemma_spot_any(after, id);
    let i = spot(books, id)->0;
    if let Some(k) = spot(after, id) {
        if k != i {
            assert(books[k].id == after[k].id);
            assert(false) by {
                if k < i {
                    assert(books[k].id != books[i].id);
                } else {
                    assert(books[i].id != books[k].id);
                }
            }
        }
    }
}

} // verus!
