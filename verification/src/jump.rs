//! Jump: the whole device in one list, filtered by typing from the phone (or T9).
use vstd::prelude::*;

use crate::index::{BookEntry, BookId, Library, Status};
use crate::input::{Key, KeyEvent, KeyKind};
use crate::order;
use crate::order::{KeyView, SortKey};
use crate::platform::{Action, Event, Result_, ScreenAsk, WifiState};
use crate::text;
use crate::text::same;
use crate::widgets::ListNav;

verus! {

/// A Jump target.
#[derive(Clone, Copy, Debug, PartialEq, Eq)]
pub enum Target {
    /// Open a book.
    Book(BookId),
    /// A screen by name.
    Screen(&'static str),
}

/// A row in Jump.
#[derive(Clone, Debug, PartialEq, Eq)]
pub struct JumpRow {
    /// Title.
    pub title: String,
    /// Right-hand value.
    pub value: String,
    /// Where it goes.
    pub target: Target,
    /// Group: 0 recent, 1 everything, 2 apps.
    pub group: u8,
}

/// A [`JumpRow`] with its texts as sequences of characters.
pub struct RowView {
    pub title: Seq<char>,
    pub value: Seq<char>,
    pub target: Target,
    pub group: u8,
}

impl View for JumpRow {
    type V = RowView;

    open spec fn view(&self) -> RowView {
        RowView { title: self.title@, value: self.value@, target: self.target, group: self.group }
    }
}

/// Rows as they are seen.
pub open spec fn row_views(v: Seq<JumpRow>) -> Seq<RowView> {
    v.map_values(|r: JumpRow| r@)
}

/// What Jump says of the device beside the names of its features.
pub struct JumpFacts {
    /// Days read in a row.
    pub streak: u32,
    /// Reading size in pixels.
    pub size: u16,
    /// The sleep screen chosen.
    pub sleep: String,
    /// Wi-Fi.
    pub wifi: WifiState,
    /// Days the battery lasts, if known.
    pub days_left: Option<u16>,
    /// Firmware version.
    pub version: String,
    /// The time.
    pub clock: String,
    /// The temperature, as it is shown, if known.
    pub weather: Option<String>,
    /// Simple mode: no apps.
    pub simple_mode: bool,
}

/// How many books Jump starts with.
pub const RECENT: usize = 4;

/// What a recent book's row shows: that it is finished, or how long it still takes.
pub open spec fn recent_value(b: BookEntry, left: Seq<char>) -> Seq<char> {
    if b.status == Status::Finished {
        "finished"@
    } else {
        left
    }
}

/// The rows of the first `n` books of a shelf.
pub open spec fn recent_rows(shelf: Seq<BookEntry>, left: Seq<Seq<char>>, n: int) -> Seq<RowView>
    decreases n,
{
    if n <= 0 {
        Seq::empty()
    } else {
        let b = shelf[n - 1];
        recent_rows(shelf, left, n - 1).push(
            RowView { title: b.title@, value: recent_value(b, left[n - 1]), target: Target::Book(b.id), group: 0 },
        )
    }
}

/// A feature's row.
pub open spec fn feature(title: Seq<char>, value: Seq<char>, name: &'static str, group: u8) -> RowView {
    RowView { title, value, target: Target::Screen(name), group }
}

/// What the Wi-Fi row shows.
pub open spec fn wifi_text(w: WifiState) -> Seq<char> {
    match w {
        WifiState::Connected { ssid, .. } => ssid@,
        WifiState::Hotspot { .. } => "hotspot"@,
        WifiState::Connecting(s) => "joining "@ + s@,
        _ => "off"@,
    }
}

/// What the battery row shows.
pub open spec fn battery_text(days: Option<u16>) -> Seq<char> {
    match days {
        Some(d) => text::decimal(d as nat) + " days"@,
        None => "—"@,
    }
}

/// What the weather row shows.
pub open spec fn weather_text(w: Option<String>) -> Seq<char> {
    match w {
        Some(t) => t@ + "°"@,
        None => Seq::empty(),
    }
}

/// The reader's features, before they are sorted; `books` is how many books the card has.
pub open spec fn everything(f: JumpFacts, books: nat) -> Seq<RowView> {
    let none = Seq::<char>::empty();
    seq![
        feature("Library"@, text::decimal(books) + " books"@, "11-library", 1),
        feature("Bookshop"@, "free books"@, "35-bookshop", 1),
        feature("Drop"@, "from your phone"@, "30-drop", 1),
        feature("Stats"@, text::decimal(f.streak as nat) + " day streak"@, "60a-overview", 1),
        feature("Settings"@, none, "50-settings", 1),
        feature("Contents"@, "this book"@, "22-contents", 1),
        feature("Highlights"@, none, "28-highlights", 1),
        feature("Go to"@, none, "23-goto", 1),
        feature("Type"@, text::decimal(f.size as nat) + " px"@, "25-type", 1),
        feature("Layout"@, none, "25-layout", 1),
        feature("Sleep screen"@, f.sleep@, "44-picker", 1),
        feature("Wi-Fi"@, wifi_text(f.wifi), "31-wifi", 1),
        feature("Folders"@, "SD card"@, "13-folders", 1),
        feature("Catalogs"@, "OPDS"@, "32-opds", 1),
        feature("Calibre"@, "wireless"@, "33-calibre", 1),
        feature("Sync"@, none, "34-sync", 1),
        feature("Downloads"@, none, "39-downloads", 1),
        feature("Year in review"@, none, "61-yearinreview", 1),
        feature("Battery"@, battery_text(f.days_left), "50-battery", 1),
        feature("About"@, f.version@, "50-about", 1),
        feature("Developer"@, none, "90-developer", 1),
    ]
}

/// The apps and games, before they are sorted.
pub open spec fn apps(f: JumpFacts) -> Seq<RowView> {
    let none = Seq::<char>::empty();
    seq![
        feature("Apps"@, none, "70-apps", 2),
        feature("Games"@, none, "80-games", 2),
        feature("Clock"@, f.clock@, "73-clock", 2),
        feature("Flashcards"@, none, "71-flashcards", 2),
        feature("News"@, none, "72-news", 2),
        feature("Weather"@, weather_text(f.weather), "74-weather", 2),
        feature("Wikipedia"@, none, "77-wikipedia", 2),
        feature("Calculator"@, none, "78-calculator", 2),
        feature("Notes"@, none, "79-notes", 2),
        feature("Images"@, none, "75-images", 2),
        feature("Interactive fiction"@, none, "76-fiction", 2),
        feature("Sudoku"@, none, "80-sudoku", 2),
        feature("2048"@, none, "80-2048", 2),
        feature("Minesweeper"@, none, "80-minesweeper", 2),
        feature("Chess"@, none, "80-chess", 2),
        feature("Wordle"@, none, "80-wordle", 2),
    ]
}

/// All features, before they are sorted; none of the apps in simple mode.
pub open spec fn features(f: JumpFacts, books: nat) -> Seq<RowView> {
    everything(f, books) + (if f.simple_mode { Seq::empty() } else { apps(f) })
}

/// What features are sorted by: the group, then the title without regard to case.
pub open spec fn feature_key(r: RowView) -> KeyView {
    KeyView { first: Seq::empty(), second: Seq::empty(), number: r.group as int, last: text::lower(r.title) }
}

/// How many of the first `n` books are on the card.
pub open spec fn on_card(books: Seq<BookEntry>, n: int) -> nat
    decreases n,
{
    if n <= 0 {
        0
    } else {
        on_card(books, n - 1) + (if books[n - 1].missing { 0nat } else { 1 })
    }
}

/// Whether `rows` is what Jump lists: the first books of the shelf, then the features in order.
pub open spec fn is_jump_list(lib: Library, left: Seq<Seq<char>>, f: JumpFacts, rows: Seq<RowView>) -> bool {
    let fs = features(f, on_card(lib.books@, lib.books@.len() as int));
    exists|shelf: Seq<BookEntry>, idx: Seq<int>|
        #![trigger crate::index::is_shelf(lib, shelf), idx.len()]
        {
            &&& crate::index::is_shelf(lib, shelf)
            &&& order::in_order(fs.map_values(|r: RowView| feature_key(r)), fs.map_values(|r: RowView| true), idx)
            &&& rows == recent_rows(shelf, left, if shelf.len() < RECENT { shelf.len() as int } else { RECENT as int })
                + idx.map_values(|i: int| fs[i])
        }
}

fn feature_row(title: &str, value: String, name: &'static str, group: u8) -> (r: JumpRow)
    ensures
        r@ == feature(title@, value@, name, group),
{
    JumpRow { title: text::owned(title), value, target: Target::Screen(name), group }
}

fn plain_row(title: &str, value: &str, name: &'static str, group: u8) -> (r: JumpRow)
    ensures
        r@ == feature(title@, value@, name, group),
{
    feature_row(title, text::owned(value), name, group)
}

fn wifi_value(w: &WifiState) -> (r: String)
    ensures
        r@ == wifi_text(*w),
{
    match w {
        WifiState::Connected { ssid, .. } => ssid.clone(),
        WifiState::Hotspot { .. } => text::owned("hotspot"),
        WifiState::Connecting(s) => text::join2("joining ", s),
        _ => text::owned("off"),
    }
}

fn weather_value(w: &Option<String>) -> (r: String)
    ensures
        r@ == weather_text(*w),
{
    match w {
        Some(t) => text::join2(t, "°"),
        None => String::new(),
    }
}

fn battery_value(days: Option<u16>) -> (r: String)
    ensures
        r@ == battery_text(days),
{
    match days {
        Some(d) => text::join2(&text::number(d as u64), " days"),
        None => text::owned("—"),
    }
}

fn everything_rows(f: &JumpFacts, books: usize) -> (rows: Vec<JumpRow>)
    ensures
        row_views(rows@) == everything(*f, books as nat),
{
    let mut v: Vec<JumpRow> = Vec::new();
    v.push(feature_row("Library", text::join2(&text::number(books as u64), " books"), "11-library", 1));
    v.push(plain_row("Bookshop", "free books", "35-bookshop", 1));
    v.push(plain_row("Drop", "from your phone", "30-drop", 1));
    v.push(feature_row("Stats", text::join2(&text::number(f.streak as u64), " day streak"), "60a-overview", 1));
    v.push(feature_row("Settings", String::new(), "50-settings", 1));
    v.push(plain_row("Contents", "this book", "22-contents", 1));
    v.push(feature_row("Highlights", String::new(), "28-highlights", 1));
    v.push(feature_row("Go to", String::new(), "23-goto", 1));
    v.push(feature_row("Type", text::join2(&text::number(f.size as u64), " px"), "25-type", 1));
    v.push(feature_row("Layout", String::new(), "25-layout", 1));
    v.push(feature_row("Sleep screen", f.sleep.clone(), "44-picker", 1));
    v.push(feature_row("Wi-Fi", wifi_value(&f.wifi), "31-wifi", 1));
    v.push(plain_row("Folders", "SD card", "13-folders", 1));
    v.push(plain_row("Catalogs", "OPDS", "32-opds", 1));
    v.push(plain_row("Calibre", "wireless", "33-calibre", 1));
    v.push(feature_row("Sync", String::new(), "34-sync", 1));
    v.push(feature_row("Downloads", String::new(), "39-downloads", 1));
    v.push(feature_row("Year in review", String::new(), "61-yearinreview", 1));
    v.push(feature_row("Battery", battery_value(f.days_left), "50-battery", 1));
    v.push(feature_row("About", f.version.clone(), "50-about", 1));
    v.push(feature_row("Developer", String::new(), "90-developer", 1));
    assert(row_views(v@) =~= everything(*f, books as nat));
    v
}

fn app_rows(f: &JumpFacts) -> (rows: Vec<JumpRow>)
    ensures
        row_views(rows@) == apps(*f),
{
    let mut v: Vec<JumpRow> = Vec::new();
    v.push(feature_row("Apps", String::new(), "70-apps", 2));
    v.push(feature_row("Games", String::new(), "80-games", 2));
    v.push(feature_row("Clock", f.clock.clone(), "73-clock", 2));
    v.push(feature_row("Flashcards", String::new(), "71-flashcards", 2));
    v.push(feature_row("News", String::new(), "72-news", 2));
    v.push(feature_row("Weather", weather_value(&f.weather), "74-weather", 2));
    v.push(feature_row("Wikipedia", String::new(), "77-wikipedia", 2));
    v.push(feature_row("Calculator", String::new(), "78-calculator", 2));
    v.push(feature_row("Notes", String::new(), "79-notes", 2));
    v.push(feature_row("Images", String::new(), "75-images", 2));
    v.push(feature_row("Interactive fiction", String::new(), "76-fiction", 2));
    v.push(feature_row("Sudoku", String::new(), "80-sudoku", 2));
    v.push(feature_row("2048", String::new(), "80-2048", 2));
    v.push(feature_row("Minesweeper", String::new(), "80-minesweeper", 2));
    v.push(feature_row("Chess", String::new(), "80-chess", 2));
    v.push(feature_row("Wordle", String::new(), "80-wordle", 2));
    assert(row_views(v@) =~= apps(*f));
    v
}

fn copy_row(r: &JumpRow) -> (c: JumpRow)
    ensures
        c@ == r@,
{
    JumpRow { title: r.title.clone(), value: r.value.clone(), target: r.target, group: r.group }
}

fn count_on_card(books: &Vec<BookEntry>) -> (n: usize)
    ensures
        n == on_card(books@, books@.len() as int),
{
    let mut n: usize = 0;
    let mut i: usize = 0;
    while i < books.len()
        invariant
            i <= books@.len(),
            n == on_card(books@, i as int),
            n <= i,
        decreases books@.len() - i,
    {
        if !books[i].missing {
            n += 1;
        }
        i += 1;
    }
    n
}

/// Everything Jump lists, in order: recent books, then features alphabetically. `left` is how long each
/// of the first four books of the shelf still takes.
pub fn all_rows(lib: &Library, left: &Vec<String>, f: &JumpFacts) -> (rows: Vec<JumpRow>)
    requires
        left@.len() >= RECENT || left@.len() >= lib.books@.len(),
    ensures
        is_jump_list(*lib, text::texts(left@), *f, row_views(rows@)),
{
    let shelf = lib.shelf();
    let ghost sh = crate::index::entries(shelf@);
    let ghost ls = text::texts(left@);
    proof {
        crate::index::lemma_shelf_len(*lib, sh);
    }
    let mut rows: Vec<JumpRow> = Vec::new();
    let n: usize = if shelf.len() < RECENT { shelf.len() } else { RECENT };
    let mut i: usize = 0;
    assert(row_views(rows@) =~= recent_rows(sh, ls, 0));
    while i < n
        invariant
            i <= n <= shelf@.len(),
            n <= left@.len(),
            sh == crate::index::entries(shelf@),
            ls == text::texts(left@),
            row_views(rows@) == recent_rows(sh, ls, i as int),
        decreases n - i,
    {
        let b = shelf[i];
        assert(*b == sh[i as int]);
        let value = if b.status == Status::Finished { text::owned("finished") } else { left[i].clone() };
        let r = JumpRow { title: b.title.clone(), value, target: Target::Book(b.id), group: 0 };
        let ghost before = row_views(rows@);
        rows.push(r);
        assert(row_views(rows@) =~= before.push(r@));
        i += 1;
    }
    let fs = feature_list(f, count_on_card(&lib.books));
    let ghost fv = row_views(fs@);
    let mut keys: Vec<SortKey> = Vec::new();
    let mut keep: Vec<bool> = Vec::new();
    let mut j: usize = 0;
    while j < fs.len()
        invariant
            j <= fs@.len(),
            fv == row_views(fs@),
            keys@.len() == j,
            keep@.len() == j,
            forall|k: int| 0 <= k < j ==> (#[trigger] keys@[k])@ == feature_key(fv[k]),
            forall|k: int| 0 <= k < j ==> #[trigger] keep@[k],
        decreases fs@.len() - j,
    {
        let k = SortKey { first: String::new(), second: String::new(), number: fs[j].group as u32, last: text::to_lowercase(&fs[j].title) };
        assert(k@ == feature_key(fv[j as int]));
        keys.push(k);
        keep.push(true);
        j += 1;
    }
    let idx = order::order(&keys, &keep);
    let ghost ps = order::positions(idx@);
    assert(order::key_views(keys@) =~= fv.map_values(|r: RowView| feature_key(r)));
    assert(keep@ =~= fv.map_values(|r: RowView| true));
    let ghost recents = row_views(rows@);
    let mut k: usize = 0;
    assert(row_views(rows@) =~= recents + ps.take(0).map_values(|i: int| fv[i]));
    while k < idx.len()
        invariant
            k <= idx@.len(),
            fv == row_views(fs@),
            ps == order::positions(idx@),
            keep@.len() == fs@.len(),
            forall|m: int| 0 <= m < ps.len() ==> 0 <= #[trigger] ps[m] < keep@.len(),
            row_views(rows@) == recents + ps.take(k as int).map_values(|i: int| fv[i]),
        decreases idx@.len() - k,
    {
        assert(ps[k as int] == idx@[k as int]);
        let ghost before = row_views(rows@);
        let r = copy_row(&fs[idx[k]]);
        rows.push(r);
        assert(row_views(rows@) =~= before.push(fv[ps[k as int]]));
        assert(row_views(rows@) =~= recents + ps.take(k + 1).map_values(|i: int| fv[i]));
        k += 1;
    }
    proof {
        assert(ps.take(k as int) =~= ps);
        assert(crate::index::is_shelf(*lib, sh) && ps.len() == ps.len());
    }
    rows
}

fn feature_list(f: &JumpFacts, books: usize) -> (fs: Vec<JumpRow>)
    ensures
        row_views(fs@) == features(*f, books as nat),
{
    let mut fs = everything_rows(f, books);
    if !f.simple_mode {
        let more = app_rows(f);
        let ghost base = row_views(fs@);
        let mut i: usize = 0;
        assert(row_views(fs@) =~= base + row_views(more@).take(0));
        while i < more.len()
            invariant
                i <= more@.len(),
                row_views(fs@) == base + row_views(more@).take(i as int),
            decreases more@.len() - i,
        {
            let ghost before = row_views(fs@);
            let r = copy_row(&more[i]);
            fs.push(r);
            assert(row_views(fs@) =~= before.push(row_views(more@)[i as int]));
            assert(row_views(fs@) =~= base + row_views(more@).take(i + 1));
            i += 1;
        }
        assert(row_views(more@).take(i as int) =~= row_views(more@));
    }
    assert(row_views(fs@) =~= features(*f, books as nat));
    fs
}

/// Whether a name is that of a screen Jump opens itself, with a book open in the reader or not.
pub open spec fn opens_itself(name: Seq<char>, reader: bool) -> bool {
    ||| name == "11-library"@ || name == "35-bookshop"@ || name == "30-drop"@ || name == "60a-overview"@
    ||| name == "61-yearinreview"@ || name == "50-settings"@ || name == "50-battery"@ || name == "50-about"@
    ||| reader && (name == "22-contents"@ || name == "28-highlights"@ || name == "23-goto"@)
    ||| name == "25-type"@ || name == "25-layout"@ || name == "44-picker"@ || name == "31-wifi"@ || name == "13-folders"@
    ||| name == "32-opds"@ || name == "33-calibre"@ || name == "34-sync"@ || name == "39-downloads"@
    ||| name == "90-developer"@ || name == "70-apps"@ || name == "80-games"@
}

fn is_own(name: &str, reader: bool) -> (r: bool)
    ensures
        r == opens_itself(name@, reader),
{
    same(name, "11-library") || same(name, "35-bookshop") || same(name, "30-drop") || same(name, "60a-overview")
        || same(name, "61-yearinreview") || same(name, "50-settings") || same(name, "50-battery") || same(name, "50-about")
        || (reader && (same(name, "22-contents") || same(name, "28-highlights") || same(name, "23-goto")))
        || same(name, "25-type") || same(name, "25-layout") || same(name, "44-picker") || same(name, "31-wifi")
        || same(name, "13-folders") || same(name, "32-opds") || same(name, "33-calibre") || same(name, "34-sync")
        || same(name, "39-downloads") || same(name, "90-developer") || same(name, "70-apps") || same(name, "80-games")
}

/// Open a Jump target. `reader` says that a book is open, `launches` that the target names an app or a
/// game.
pub fn open_target(t: &Target, reader: bool, launches: bool) -> (r: Action)
    ensures
        r == target_opened(*t, reader, launches),
        r == match *t {
            Target::Book(id) => Action::Open(id),
            Target::Screen(name) => if opens_itself(name@, reader) || launches {
                Action::Replace(ScreenAsk::Named(name))
            } else {
                Action::Pop
            },
        },
{
    match t {
        Target::Book(id) => Action::Open(*id),
        Target::Screen(name) => {
            if is_own(name, reader) || launches {
                Action::Replace(ScreenAsk::Named(*name))
            } else {
                Action::Pop
            }
        },
    }
}

/// The Jump screen.
pub struct Jump {
    /// What is searched for.
    pub query: String,
    /// Focus.
    pub nav: ListNav,
    /// Everything there is to find.
    pub rows: Vec<JumpRow>,
}

/// Whether a row's title holds the query, without regard to case.
pub open spec fn is_hit(title: Seq<char>, q: Seq<char>) -> bool {
    q.len() == 0 || text::has_text(text::lower(title), q)
}

/// Whether a word of a row's title starts with the query, without regard to case.
pub open spec fn is_word_hit(title: Seq<char>, q: Seq<char>) -> bool {
    exists|k: int|
        0 <= k < text::words(text::lower(title)).len() && q.is_prefix_of(#[trigger] text::words(text::lower(title))[k])
}

/// Hits at the start of a word ("we", Weather) come before those inside one (Minesweeper).
pub open spec fn hit_key(title: Seq<char>, q: Seq<char>) -> KeyView {
    KeyView {
        first: Seq::empty(),
        second: Seq::empty(),
        number: if q.len() > 0 && !is_word_hit(title, q) { 1 } else { 0 },
        last: Seq::empty(),
    }
}

/// Whether `hits` lists the rows that match a query, in order.
pub open spec fn is_hit_list(rows: Seq<RowView>, query: Seq<char>, hits: Seq<int>) -> bool {
    let q = text::lower(query);
    order::in_order(
        rows.map_values(|r: RowView| hit_key(r.title, q)),
        rows.map_values(|r: RowView| is_hit(r.title, q)),
        hits,
    )
}

fn any_word_starts(title: &str, q: &str) -> (r: bool)
    ensures
        r == exists|k: int| 0 <= k < text::words(title@).len() && q@.is_prefix_of(#[trigger] text::words(title@)[k]),
{
    let ws = text::split_words(title);
    let ghost wv = text::words(title@);
    let mut i: usize = 0;
    while i < ws.len()
        invariant
            i <= ws@.len(),
            wv == text::words(title@),
            text::texts(ws@) == wv,
            forall|k: int| 0 <= k < i ==> !q@.is_prefix_of(#[trigger] wv[k]),
        decreases ws@.len() - i,
    {
        assert(wv[i as int] == ws@[i as int]@);
        if text::starts_with(&ws[i], q) {
            assert(q@.is_prefix_of(text::words(title@)[i as int]));
            return true;
        }
        i += 1;
    }
    false
}

impl Jump {
    /// New.
    pub fn new() -> (r: Self)
        ensures
            r.query@.len() == 0,
            r.nav == (ListNav { focus: 0, n: 0, per_page: 1 }),
            r.rows@.len() == 0,
    {
        Jump { query: String::new(), nav: ListNav::new(0, 1), rows: Vec::new() }
    }

    /// The rows that match the query.
    pub fn filtered(&self) -> (hits: Vec<usize>)
        ensures
            is_hit_list(row_views(self.rows@), self.query@, order::positions(hits@)),
            forall|k: int| 0 <= k < hits@.len() ==> #[trigger] hits@[k] < self.rows@.len(),
    {
        let q = text::to_lowercase(&self.query);
        let ghost rv = row_views(self.rows@);
        let mut keys: Vec<SortKey> = Vec::new();
        let mut keep: Vec<bool> = Vec::new();
        let mut i: usize = 0;
        while i < self.rows.len()
            invariant
                i <= self.rows@.len(),
                q@ == text::lower(self.query@),
                rv == row_views(self.rows@),
                keys@.len() == i,
                keep@.len() == i,
                forall|k: int| 0 <= k < i ==> (#[trigger] keys@[k])@ == hit_key(rv[k].title, q@),
                forall|k: int| 0 <= k < i ==> #[trigger] keep@[k] == is_hit(rv[k].title, q@),
            decreases self.rows@.len() - i,
        {
            let low = text::to_lowercase(&self.rows[i].title);
            let inside = !q.as_str().is_empty() && !any_word_starts(&low, &q);
            let k = SortKey { first: String::new(), second: String::new(), number: if inside { 1 } else { 0 }, last: String::new() };
            assert(k@ == hit_key(rv[i as int].title, q@));
            keys.push(k);
            keep.push(q.as_str().is_empty() || text::contains(&low, &q));
            i += 1;
        }
        let hits = order::order(&keys, &keep);
        assert(order::key_views(keys@) =~= rv.map_values(|r: RowView| hit_key(r.title, q@)));
        assert(keep@ =~= rv.map_values(|r: RowView| is_hit(r.title, q@)));
        let ghost ps = order::positions(hits@);
        assert forall|k: int| 0 <= k < hits@.len() implies #[trigger] hits@[k] < self.rows@.len() by {
            assert(ps[k] == hits@[k]);
        }
        hits
    }

    /// The action for the row `focus` of a hit list: its target, or closing Jump where there is none.
    pub open spec fn opens(self, hits: Seq<int>, reader: bool, launches: bool) -> Action {
        if self.nav.focus < hits.len() {
            match self.rows@[hits[self.nav.focus as int]].target {
                Target::Book(id) => Action::Open(id),
                Target::Screen(name) => if opens_itself(name@, reader) || launches {
                    Action::Replace(ScreenAsk::Named(name))
                } else {
                    Action::Pop
                },
            }
        } else {
            Action::Pop
        }
    }

    /// The target under the focus, if there is one.
    pub fn focused(&self) -> (r: Option<Target>)
        ensures
            exists|hits: Seq<int>| #[trigger]
                is_hit_list(row_views(self.rows@), self.query@, hits) && r == if self.nav.focus < hits.len() {
                    Some(self.rows@[hits[self.nav.focus as int]].target)
                } else {
                    None
                },
    {
        let hits = self.filtered();
        let ghost ps = order::positions(hits@);
        assert(is_hit_list(row_views(self.rows@), self.query@, ps));
        if self.nav.focus < hits.len() {
            assert(ps[self.nav.focus as int] == hits@[self.nav.focus as int]);
            Some(self.rows[hits[self.nav.focus]].target)
        } else {
            None
        }
    }

    /// Handle a key. `reader` says that a book is open, `launches` that the focused row names an app or a
    /// game.
    pub fn key(&mut self, ev: KeyEvent, reader: bool, launches: bool) -> (r: Action)
        requires
            old(self).nav.wf(),
        ensures
            keyed(*old(self), ev, *final(self), r),
            final(self).nav.wf(),
            final(self).query == old(self).query,
            final(self).rows == old(self).rows,
            ({
                let moves = ev.key == Key::Up || ev.key == Key::Down || ev.key == Key::Left || ev.key == Key::Right;
                &&& final(self).nav == if ev.kind != KeyKind::Release && moves && old(self).nav.n > 0 {
                    ListNav { focus: old(self).nav.moved(ev.key) as usize, ..old(self).nav }
                } else {
                    old(self).nav
                }
                &&& if ev.kind == KeyKind::Release {
                    r is Nothing
                } else if ev.key == Key::Back && ev.kind == KeyKind::Press {
                    r is Pop
                } else if ev.key == Key::Confirm && ev.kind == KeyKind::Press {
                    exists|hits: Seq<int>| #[trigger]
                        is_hit_list(row_views(old(self).rows@), old(self).query@, hits) && r == old(self).opens(
                            hits,
                            reader,
                            launches,
                        )
                } else if ev.key == Key::Confirm && ev.kind == KeyKind::Long {
                    r matches Action::Push(ScreenAsk::T9 { title, initial, hint }) && title@ == "Jump"@ && initial@
                        == old(self).query@ && hint@ == "Search everything"@
                } else if moves {
                    r is Redraw
                } else {
                    r is Nothing
                }
            }),
    {
        if ev.kind == KeyKind::Release {
            return Action::Nothing;
        }
        if ev.is(Key::Back) {
            return Action::Pop;
        }
        if ev.is(Key::Confirm) {
            let hits = self.filtered();
            let ghost ps = order::positions(hits@);
            assert(is_hit_list(row_views(self.rows@), self.query@, ps));
            if self.nav.focus < hits.len() {
                assert(ps[self.nav.focus as int] == hits@[self.nav.focus as int]);
                let t = self.rows[hits[self.nav.focus]].target;
                return open_target(&t, reader, launches);
            }
            return Action::Pop;
        }
        if ev.is_long(Key::Confirm) {
            return Action::Push(
                ScreenAsk::T9 {
                    title: text::owned("Jump"),
                    initial: self.query.clone(),
                    hint: text::owned("Search everything"),
                },
            );
        }
        if self.nav.key(ev) {
            return Action::Redraw;
        }
        Action::Nothing
    }

    fn search_for(&mut self, t: &String)
        ensures
            searched(*old(self), t@, *final(self)),
            final(self).query@ == t@,
            final(self).nav == (ListNav { focus: 0, ..old(self).nav }),
            final(self).rows == old(self).rows,
    {
        self.query = t.clone();
        self.nav.focus = 0;
    }

    /// Handle an event: text typed on the phone is searched for, and is taken.
    pub fn event(&mut self, ev: &Event, phone_text: &mut Option<String>) -> (r: Action)
        ensures
            *ev matches Event::PhoneText(t) ==> searched(*old(self), t@, *final(self)),
            final(self).rows == old(self).rows,
            match *ev {
                Event::PhoneText(t) => r is Redraw && *final(phone_text) is None && final(self).query@ == t@ && final(self).nav == (ListNav { focus: 0, ..old(self).nav }),
                _ => r is Nothing && *final(phone_text) == *old(phone_text) && *final(self) == *old(self),
            },
    {
        if let Event::PhoneText(t) = ev {
            *phone_text = None;
            self.search_for(t);
            return Action::Redraw;
        }
        Action::Nothing
    }

    /// The keyboard closed: its text is searched for.
    pub fn result(&mut self, res: &Result_) -> (r: Action)
        ensures
            *res matches Result_::Text(t) ==> searched(*old(self), t@, *final(self)),
            r is Redraw,
            final(self).rows == old(self).rows,
            match *res {
                Result_::Text(t) => final(self).query@ == t@ && final(self).nav == (ListNav { focus: 0, ..old(self).nav }),
                _ => *final(self) == *old(self),
            },
    {
        if let Result_::Text(t) = res {
            self.search_for(t);
        }
        Action::Redraw
    }
}

impl Default for Jump {
    fn default() -> (r: Self)
        ensures
            r.query@.len() == 0,
            r.nav == (ListNav { focus: 0, n: 0, per_page: 1 }),
            r.rows@.len() == 0,
    {
        Jump::new()
    }
}

/// With nothing typed Jump lists every row, in its own order.
pub proof fn law_empty_query_lists_everything(rows: Seq<RowView>, query: Seq<char>)
    requires
        query.len() == 0,
    ensures
        is_hit_list(rows, query, Seq::new(rows.len(), |i: int| i)),
{
    let q = text::lower(query);
    let keys = rows.map_values(|r: RowView| hit_key(r.title, q));
    let keep = rows.map_values(|r: RowView| is_hit(r.title, q));
    let all = Seq::new(rows.len(), |i: int| i);
    assert forall|i: int| 0 <= i < keep.len() && #[trigger] keep[i] implies all.contains(i) by {
        assert(all[i] == i);
    }
    assert forall|a: int, b: int| 0 <= a < b < all.len() implies order::comes_before(keys, #[trigger] all[a], #[trigger] all[b]) by {
        assert(keys[a] == keys[b]);
    }
}

/// A hit at the start of a word is never listed after one inside a word.
pub proof fn law_word_hits_come_first(rows: Seq<RowView>, query: Seq<char>, hits: Seq<int>, a: int, b: int)
    requires
        is_hit_list(rows, query, hits),
        text::lower(query).len() > 0,
        0 <= a < hits.len(),
        0 <= b < hits.len(),
        is_word_hit(rows[hits[a]].title, text::lower(query)),
        !is_word_hit(rows[hits[b]].title, text::lower(query)),
    ensures
        a < b,
{
    let q = text::lower(query);
    let keys = rows.map_values(|r: RowView| hit_key(r.title, q));
    let keep = rows.map_values(|r: RowView| is_hit(r.title, q));
    assert(keep[hits[a]] && keep[hits[b]]);
    if b < a {
        assert(order::comes_before(keys, hits[b], hits[a]));
        order::law_text_order_is_strict(Seq::empty());
    }
}

/// Everything comes before the apps: in the sorted features no row of a later group stands before one of
/// an earlier group.
pub proof fn law_groups_stand_together(fs: Seq<RowView>, idx: Seq<int>, a: int, b: int)
    requires
        order::in_order(fs.map_values(|r: RowView| feature_key(r)), fs.map_values(|r: RowView| true), idx),
        0 <= a < b < idx.len(),
    ensures
        fs[idx[a]].group <= fs[idx[b]].group,
{
    let keys = fs.map_values(|r: RowView| feature_key(r));
    let keep = fs.map_values(|r: RowView| true);
    assert(keep[idx[a]] && keep[idx[b]]);
    assert(order::comes_before(keys, idx[a], idx[b]));
    order::law_text_order_is_strict(Seq::empty());
}

/// Whether one of the rows has this title, leads to this screen and stands in this group.
pub open spec fn leads(rows: Seq<RowView>, title: Seq<char>, name: &'static str, group: u8) -> bool {
    exists|i: int|
        0 <= i < rows.len() && (#[trigger] rows[i]).title == title && rows[i].target == Target::Screen(name) && rows[i].group
            == group
}

/// Everything the reader can do is listed, and each leads to its own screen.
pub proof fn law_everything_is_listed(f: JumpFacts, books: nat)
    ensures
        everything(f, books).len() == 21,
        leads(everything(f, books), "Library"@, "11-library", 1),
        leads(everything(f, books), "Bookshop"@, "35-bookshop", 1),
        leads(everything(f, books), "Drop"@, "30-drop", 1),
        leads(everything(f, books), "Stats"@, "60a-overview", 1),
        leads(everything(f, books), "Settings"@, "50-settings", 1),
        leads(everything(f, books), "Contents"@, "22-contents", 1),
        leads(everything(f, books), "Highlights"@, "28-highlights", 1),
        leads(everything(f, books), "Go to"@, "23-goto", 1),
        leads(everything(f, books), "Type"@, "25-type", 1),
        leads(everything(f, books), "Layout"@, "25-layout", 1),
        leads(everything(f, books), "Sleep screen"@, "44-picker", 1),
        leads(everything(f, books), "Wi-Fi"@, "31-wifi", 1),
        leads(everything(f, books), "Folders"@, "13-folders", 1),
        leads(everything(f, books), "Catalogs"@, "32-opds", 1),
        leads(everything(f, books), "Calibre"@, "33-calibre", 1),
        leads(everything(f, books), "Sync"@, "34-sync", 1),
        leads(everything(f, books), "Downloads"@, "39-downloads", 1),
        leads(everything(f, books), "Year in review"@, "61-yearinreview", 1),
        leads(everything(f, books), "Battery"@, "50-battery", 1),
        leads(everything(f, books), "About"@, "50-about", 1),
        leads(everything(f, books), "Developer"@, "90-developer", 1),
{
    let rows = everything(f, books);
    assert(rows[0].title == "Library"@ && rows[0].target == Target::Screen("11-library"));
    assert(rows[1].title == "Bookshop"@ && rows[1].target == Target::Screen("35-bookshop"));
    assert(rows[2].title == "Drop"@ && rows[2].target == Target::Screen("30-drop"));
    assert(rows[3].title == "Stats"@ && rows[3].target == Target::Screen("60a-overview"));
    assert(rows[4].title == "Settings"@ && rows[4].target == Target::Screen("50-settings"));
    assert(rows[5].title == "Contents"@ && rows[5].target == Target::Screen("22-contents"));
    assert(rows[6].title == "Highlights"@ && rows[6].target == Target::Screen("28-highlights"));
    assert(rows[7].title == "Go to"@ && rows[7].target == Target::Screen("23-goto"));
    assert(rows[8].title == "Type"@ && rows[8].target == Target::Screen("25-type"));
    assert(rows[9].title == "Layout"@ && rows[9].target == Target::Screen("25-layout"));
    assert(rows[10].title == "Sleep screen"@ && rows[10].target == Target::Screen("44-picker"));
    assert(rows[11].title == "Wi-Fi"@ && rows[11].target == Target::Screen("31-wifi"));
    assert(rows[12].title == "Folders"@ && rows[12].target == Target::Screen("13-folders"));
    assert(rows[13].title == "Catalogs"@ && rows[13].target == Target::Screen("32-opds"));
    assert(rows[14].title == "Calibre"@ && rows[14].target == Target::Screen("33-calibre"));
    assert(rows[15].title == "Sync"@ && rows[15].target == Target::Screen("34-sync"));
    assert(rows[16].title == "Downloads"@ && rows[16].target == Target::Screen("39-downloads"));
    assert(rows[17].title == "Year in review"@ && rows[17].target == Target::Screen("61-yearinreview"));
    assert(rows[18].title == "Battery"@ && rows[18].target == Target::Screen("50-battery"));
    assert(rows[19].title == "About"@ && rows[19].target == Target::Screen("50-about"));
    assert(rows[20].title == "Developer"@ && rows[20].target == Target::Screen("90-developer"));
}

/// Every app and game is listed, and each leads to its own screen; in simple mode none of them is.
pub proof fn law_every_app_is_listed(f: JumpFacts, books: nat)
    ensures
        !f.simple_mode ==> features(f, books) == everything(f, books) + apps(f),
        f.simple_mode ==> features(f, books) == everything(f, books),
        forall|i: int| 0 <= i < everything(f, books).len() ==> (#[trigger] everything(f, books)[i]).group == 1,
        forall|i: int| 0 <= i < apps(f).len() ==> (#[trigger] apps(f)[i]).group == 2,
        apps(f).len() == 16,
        leads(apps(f), "Apps"@, "70-apps", 2),
        leads(apps(f), "Games"@, "80-games", 2),
        leads(apps(f), "Clock"@, "73-clock", 2),
        leads(apps(f), "Flashcards"@, "71-flashcards", 2),
        leads(apps(f), "News"@, "72-news", 2),
        leads(apps(f), "Weather"@, "74-weather", 2),
        leads(apps(f), "Wikipedia"@, "77-wikipedia", 2),
        leads(apps(f), "Calculator"@, "78-calculator", 2),
        leads(apps(f), "Notes"@, "79-notes", 2),
        leads(apps(f), "Images"@, "75-images", 2),
        leads(apps(f), "Interactive fiction"@, "76-fiction", 2),
        leads(apps(f), "Sudoku"@, "80-sudoku", 2),
        leads(apps(f), "2048"@, "80-2048", 2),
        leads(apps(f), "Minesweeper"@, "80-minesweeper", 2),
        leads(apps(f), "Chess"@, "80-chess", 2),
        leads(apps(f), "Wordle"@, "80-wordle", 2),
{
    let rows = apps(f);
    assert(everything(f, books) + Seq::<RowView>::empty() =~= everything(f, books));
    assert(rows[0].title == "Apps"@ && rows[0].target == Target::Screen("70-apps"));
    assert(rows[1].title == "Games"@ && rows[1].target == Target::Screen("80-games"));
    assert(rows[2].title == "Clock"@ && rows[2].target == Target::Screen("73-clock"));
    assert(rows[3].title == "Flashcards"@ && rows[3].target == Target::Screen("71-flashcards"));
    assert(rows[4].title == "News"@ && rows[4].target == Target::Screen("72-news"));
    assert(rows[5].title == "Weather"@ && rows[5].target == Target::Screen("74-weather"));
    assert(rows[6].title == "Wikipedia"@ && rows[6].target == Target::Screen("77-wikipedia"));
    assert(rows[7].title == "Calculator"@ && rows[7].target == Target::Screen("78-calculator"));
    assert(rows[8].title == "Notes"@ && rows[8].target == Target::Screen("79-notes"));
    assert(rows[9].title == "Images"@ && rows[9].target == Target::Screen("75-images"));
    assert(rows[10].title == "Interactive fiction"@ && rows[10].target == Target::Screen("76-fiction"));
    assert(rows[11].title == "Sudoku"@ && rows[11].target == Target::Screen("80-sudoku"));
    assert(rows[12].title == "2048"@ && rows[12].target == Target::Screen("80-2048"));
    assert(rows[13].title == "Minesweeper"@ && rows[13].target == Target::Screen("80-minesweeper"));
    assert(rows[14].title == "Chess"@ && rows[14].target == Target::Screen("80-chess"));
    assert(rows[15].title == "Wordle"@ && rows[15].target == Target::Screen("80-wordle"));
}

/// The list begins with the books of the shelf, the first four at most, each under its title and opening that book; a
/// book read to its end says so, and any other how much of it is left. Behind them stand the features, every one of
/// them once, by group and then by title without regard to case.
pub proof fn law_recent_books_lead_the_list(
    lib: Library,
    left: Seq<Seq<char>>,
    f: JumpFacts,
    rows: Seq<RowView>,
    shelf: Seq<BookEntry>,
    k: int,
)
    requires
        is_jump_list(lib, left, f, rows),
        crate::index::is_shelf(lib, shelf),
        0 <= k < rows.len(),
    ensures
        ({
            let n = if shelf.len() < 4 { shelf.len() as int } else { 4 };
            &&& n <= rows.len()
            &&& k < n ==> rows[k].title == shelf[k].title@ && rows[k].target == Target::Book(shelf[k].id) && rows[k].group == 0
            &&& k < n && shelf[k].status == Status::Finished ==> rows[k].value == "finished"@
            &&& k < n && shelf[k].status != Status::Finished ==> rows[k].value == left[k]
            &&& k >= n ==> rows[k].target is Screen && features(
                f,
                on_card(lib.books@, lib.books@.len() as int),
            ).contains(rows[k])
            &&& n <= k && k + 1 < rows.len() ==> rows[k].group <= rows[k + 1].group && (rows[k].group == rows[k + 1].group
                ==> !order::text_before(text::lower(rows[k + 1].title), text::lower(rows[k].title)))
        }),
{
    let fs = features(f, on_card(lib.books@, lib.books@.len() as int));
    let keys = fs.map_values(|r: RowView| feature_key(r));
    let keep = fs.map_values(|r: RowView| true);
    let (other, idx) = choose|shelf: Seq<BookEntry>, idx: Seq<int>|
        #![trigger crate::index::is_shelf(lib, shelf), idx.len()]
        {
            &&& crate::index::is_shelf(lib, shelf)
            &&& order::in_order(keys, keep, idx)
            &&& rows == recent_rows(shelf, left, if shelf.len() < RECENT { shelf.len() as int } else { RECENT as int })
                + idx.map_values(|i: int| fs[i])
        };
    crate::index::law_one_shelf(lib, shelf, other);
    let n = if shelf.len() < 4 { shelf.len() as int } else { 4 };
    lemma_recent_rows(shelf, left, n, k);
    if k >= n {
        let i = idx[k - n];
        assert(keep[i]);
        assert(rows[k] == fs[i]);
        lemma_features_are_screens(f, on_card(lib.books@, lib.books@.len() as int), i);
        if k + 1 < rows.len() {
            let j = idx[k + 1 - n];
            assert(keep[j]);
            assert(rows[k + 1] == fs[j]);
            assert(order::comes_before(keys, i, j));
            order::law_text_order_is_strict(Seq::empty());
            order::lemma_one_way(keys[i], keys[j]);
        }
    }
}

proof fn lemma_features_are_screens(f: JumpFacts, books: nat, i: int)
    requires
        0 <= i < features(f, books).len(),
    ensures
        features(f, books)[i].target is Screen,
{
    let all = everything(f, books);
    let some = apps(f);
    assert forall|k: int| 0 <= k < all.len() implies (#[trigger] all[k]).target is Screen by {}
    assert forall|k: int| 0 <= k < some.len() implies (#[trigger] some[k]).target is Screen by {}
    if i < all.len() {
        assert(features(f, books)[i] == all[i]);
    } else {
        assert(features(f, books)[i] == some[i - all.len()]);
    }
}

proof fn lemma_recent_rows(shelf: Seq<BookEntry>, left: Seq<Seq<char>>, n: int, k: int)
    requires
        0 <= n <= shelf.len(),
    ensures
        recent_rows(shelf, left, n).len() == n,
        0 <= k < n ==> recent_rows(shelf, left, n)[k] == (RowView {
            title: shelf[k].title@,
            value: if shelf[k].status == Status::Finished { "finished"@ } else { left[k] },
            target: Target::Book(shelf[k].id),
            group: 0,
        }),
    decreases n,
{
    if n > 0 {
        lemma_recent_rows(shelf, left, n - 1, k);
    }
}

/// What is listed for a query are the rows that hold it in their title, both in lower case, and every one of them.
pub proof fn law_hits_hold_the_query(rows: Seq<RowView>, query: Seq<char>, hits: Seq<int>, i: int)
    requires
        is_hit_list(rows, query, hits),
        0 <= i < rows.len(),
    ensures
        hits.contains(i) <==> query.len() == 0 || text::lower(query).len() == 0 || text::has_text(
            text::lower(rows[i].title),
            text::lower(query),
        ),
        forall|a: int| 0 <= a < hits.len() ==> 0 <= #[trigger] hits[a] < rows.len(),
{
    let q = text::lower(query);
    let keep = rows.map_values(|r: RowView| is_hit(r.title, q));
    assert(keep[i] == is_hit(rows[i].title, q));
    if query.len() == 0 {
        assert(vstd::utf8::is_ascii_chars(query));
        assert(q.len() == 0);
    }
    if hits.contains(i) {
        let a = choose|a: int| 0 <= a < hits.len() && hits[a] == i;
        assert(keep[hits[a]]);
    }
    assert forall|a: int| 0 <= a < hits.len() implies 0 <= #[trigger] hits[a] < rows.len() by {
        assert(0 <= hits[a] < keep.len());
    }
}

/// Confirming a row does what the row is for: a book's row opens that book; a feature's row brings its screen, if there
/// is one for it; with no row there, Jump goes away.
pub proof fn law_confirming_opens_the_row(j: Jump, hits: Seq<int>, reader: bool, launches: bool)
    ensures
        j.nav.focus >= hits.len() ==> j.opens(hits, reader, launches) == Action::Pop,
        j.nav.focus < hits.len() ==> {
            let target = j.rows@[hits[j.nav.focus as int]].target;
            &&& target matches Target::Book(id) ==> j.opens(hits, reader, launches) == Action::Open(id)
            &&& target matches Target::Screen(name) ==> (if launches || opens_itself(name@, reader) {
                j.opens(hits, reader, launches) == Action::Replace(ScreenAsk::Named(name))
            } else {
                j.opens(hits, reader, launches) == Action::Pop
            })
        },
{
}

/// What is listed beside a feature: the network that is joined, the days that the battery lasts.
pub proof fn law_values_tell_how_things_stand(w: WifiState, days: Option<u16>)
    ensures
        w matches WifiState::Connected { ssid, .. } ==> wifi_text(w) == ssid@,
        w matches WifiState::Connecting(ssid) ==> wifi_text(w) == "joining "@ + ssid@,
        w is Off ==> wifi_text(w) == "off"@,
        w is Hotspot ==> wifi_text(w) == "hotspot"@,
        days matches Some(d) ==> battery_text(days) == text::decimal(d as nat) + " days"@,
{
}

/// What a row's target leads to.
pub open spec fn target_opened(t: Target, reader: bool, launches: bool) -> Action {
    match t {
        Target::Book(id) => Action::Open(id),
        Target::Screen(name) => if opens_itself(name@, reader) || launches {
            Action::Replace(ScreenAsk::Named(name))
        } else {
            Action::Pop
        },
    }
}

/// Whether this is Jump with this query.
pub open spec fn searched(o: Jump, t: Seq<char>, n: Jump) -> bool {
    n.query@ == t && n.nav.focus == 0 && n.nav.n == o.nav.n && n.rows == o.rows
}

/// Whether this is what a key does to Jump and what comes of it, but for what a row leads to.
pub open spec fn keyed(o: Jump, ev: KeyEvent, n: Jump, r: Action) -> bool {
    let moves = ev.key == Key::Up || ev.key == Key::Down || ev.key == Key::Left || ev.key == Key::Right;
    &&& n.query == o.query && n.rows == o.rows
    &&& n.nav == if ev.kind != KeyKind::Release && moves && o.nav.n > 0 {
        ListNav { focus: o.nav.moved(ev.key) as usize, ..o.nav }
    } else {
        o.nav
    }
    &&& ev.kind == KeyKind::Release ==> r is Nothing
    &&& ev.key == Key::Back && ev.kind == KeyKind::Press ==> r is Pop
    &&& ev.key == Key::Confirm && ev.kind == KeyKind::Long ==> (r matches Action::Push(ScreenAsk::T9 { title, initial, hint })
        && initial@ == o.query@)
    &&& ev.kind != KeyKind::Release && moves ==> r is Redraw
}

/// Keys go along the list and are shown at once; Back leaves, and holding Confirm asks for a query, beginning with the
/// one there is. No key changes the query or the rows.
pub proof fn law_jump_is_gone_through_with_the_keys(o: Jump, ev: KeyEvent, n: Jump, r: Action)
    requires
        o.nav.wf(),
        o.nav.n > 0,
        keyed(o, ev, n, r),
    ensures
        n.query@ == o.query@ && n.rows == o.rows,
        ev.key == Key::Down && ev.kind == KeyKind::Press && o.nav.focus + 1 < o.nav.n ==> n.nav.focus == o.nav.focus + 1 && r is Redraw,
        ev.key == Key::Up && ev.kind == KeyKind::Press && o.nav.focus > 0 ==> n.nav.focus == o.nav.focus - 1 && r is Redraw,
        ev.key == Key::Back && ev.kind == KeyKind::Press ==> r == Action::Pop && n.nav == o.nav,
        ev.key == Key::Confirm && ev.kind == KeyKind::Long ==> (r matches Action::Push(ScreenAsk::T9 { title, initial, hint })
            && initial@ == o.query@),
        ev.kind == KeyKind::Release ==> r == Action::Nothing && n.nav == o.nav,
{
    crate::widgets::law_lists_go_item_by_item(o.nav);
}

/// A new query starts at the top of what it finds.
pub proof fn law_new_queries_start_at_the_top(o: Jump, t: Seq<char>, n: Jump)
    requires
        searched(o, t, n),
    ensures
        n.query@ == t,
        n.nav.focus == 0,
        n.rows == o.rows,
{
}

/// A book's row opens that book and a feature's row its screen.
pub proof fn law_targets_open(id: BookId, name: &'static str, reader: bool, launches: bool)
    ensures
        target_opened(Target::Book(id), reader, launches) == Action::Open(id),
        launches ==> target_opened(Target::Screen(name), reader, launches) == Action::Replace(ScreenAsk::Named(name)),
        opens_itself(name@, reader) ==> target_opened(Target::Screen(name), reader, launches) == Action::Replace(
            ScreenAsk::Named(name),
        ),
{
}

/// With a book open every feature opens itself; without one, all but those that need a book do.
pub proof fn law_features_open_themselves(f: JumpFacts, books: nat, i: int, reader: bool)
    requires
        0 <= i < everything(f, books).len(),
    ensures
        everything(f, books)[i].target matches Target::Screen(name) && opens_itself(name@, true),
        everything(f, books)[i].target matches Target::Screen(name) && (name@ != "22-contents"@ && name@ != "28-highlights"@ && name@
            != "23-goto"@ ==> opens_itself(name@, reader)),
{
    let rows = everything(f, books);
    assert(rows.len() == 21);
}

/// The books counted are those on the card.
pub proof fn law_missing_books_do_not_count(books: Seq<BookEntry>, n: int)
    requires
        0 <= n <= books.len(),
    ensures
        on_card(books, n) <= n,
        (forall|i: int| 0 <= i < n ==> !(#[trigger] books[i]).missing) ==> on_card(books, n) == n,
        (forall|i: int| 0 <= i < n ==> (#[trigger] books[i]).missing) ==> on_card(books, n) == 0,
        n > 0 && !books[n - 1].missing ==> on_card(books, n) == on_card(books, n - 1) + 1,
    decreases n,
{
    if n > 0 {
        law_missing_books_do_not_count(books, n - 1);
    }
}

/// A title is hit by a word where one of its words begins with the query, and only there: a query that stands inside its
/// words alone does not count as one.
pub proof fn law_word_hits_begin_a_word(title: Seq<char>, q: Seq<char>)
    ensures
        is_word_hit(title, q) <==> exists|w: Seq<char>|
            #[trigger] text::words(text::lower(title)).contains(w) && w.take(q.len() as int) == q && q.len() <= w.len(),
{
    let ws = text::words(text::lower(title));
    if is_word_hit(title, q) {
        let k = choose|k: int| 0 <= k < ws.len() && q.is_prefix_of(#[trigger] ws[k]);
        assert(ws.contains(ws[k]));
        assert(ws[k].take(q.len() as int) =~= q);
    }
    if exists|w: Seq<char>| #[trigger] ws.contains(w) && w.take(q.len() as int) == q && q.len() <= w.len() {
        let w = choose|w: Seq<char>| #[trigger] ws.contains(w) && w.take(q.len() as int) == q && q.len() <= w.len();
        let k = choose|k: int| 0 <= k < ws.len() && ws[k] == w;
        assert(ws[k].subrange(0, q.len() as int) =~= q);
        assert(q.is_prefix_of(ws[k]));
    }
}

/// Rows hit alike stay in the order they have in the whole list.
pub proof fn law_hits_of_a_kind_keep_their_order(rows: Seq<RowView>, query: Seq<char>, hits: Seq<int>, a: int, b: int)
    requires
        is_hit_list(rows, query, hits),
        0 <= a < b < hits.len(),
        is_word_hit(rows[hits[a]].title, text::lower(query)) == is_word_hit(rows[hits[b]].title, text::lower(query)),
    ensures
        hits[a] < hits[b],
{
    let q = text::lower(query);
    let keys = rows.map_values(|r: RowView| hit_key(r.title, q));
    let keep = rows.map_values(|r: RowView| is_hit(r.title, q));
    assert(keep[hits[a]] && keep[hits[b]]);
    assert(order::comes_before(keys, hits[a], hits[b]));
    order::law_text_order_is_strict(Seq::empty());
}

/// The weather is told in degrees, where it is known.
pub proof fn law_weather_is_told_in_degrees(t: String)
    ensures
        weather_text(Some(t)) == t@ + "°"@,
        weather_text(None).len() == 0,
        battery_text(None) == "—"@,
{
}

} // verus!
