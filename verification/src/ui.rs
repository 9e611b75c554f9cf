//! The screen system.
//!
//! Every screen is a static page drawn in response to key events. The [`Ui`] owns the screen stack and
//! decides: who gets an event, what an action does to the stack, what has to be drawn again and how
//! strongly the panel is refreshed. The platform holds the screens themselves, does what the decisions
//! ask for, and reports back.
use vstd::prelude::*;

use crate::index::{is_first, spot, with_book, BookEntry, BookId, IngestState, Library};
use crate::input::{Key, KeyEvent, KeyKind, Refresh};
use crate::platform::{Action, Event, Result_, ScreenAsk, SysRequest};
use crate::text;
use crate::text::same;

verus! {

/// Deepest the screen stack gets: the root plus seven screens of history.
pub const MAX_STACK: usize = 8;

/// Seconds between two periodic saves.
pub const SAVE_EVERY: u32 = 30;

/// What the interface knows of a screen on its stack.
#[derive(Clone, Debug, PartialEq, Eq)]
pub struct Page {
    /// Which screen it is: no two screens that were ever opened have the same, as long as the counter they come
    /// from has not come round.
    pub id: u64,
    /// Stable name.
    pub name: String,
    /// Whether the screen draws over the one beneath it.
    pub overlay: bool,
    /// Whether its minute tick reads the filesystem.
    pub tick_needs_fs: bool,
}

/// A [`Page`] with its name as a sequence of characters.
pub struct PageView {
    pub id: u64,
    pub name: Seq<char>,
    pub overlay: bool,
    pub tick_needs_fs: bool,
}

impl View for Page {
    type V = PageView;

    open spec fn view(&self) -> PageView {
        PageView { id: self.id, name: self.name@, overlay: self.overlay, tick_needs_fs: self.tick_needs_fs }
    }
}

/// A stack as it is seen, bottom first.
pub open spec fn pages(v: Seq<Page>) -> Seq<PageView> {
    v.map_values(|p: Page| p@)
}

/// What a newly made screen says of itself.
#[derive(Clone, Debug, PartialEq, Eq)]
pub struct NewScreen {
    /// Stable name.
    pub name: String,
    /// Whether the screen draws over the one beneath it.
    pub overlay: bool,
    /// Whether its minute tick reads the filesystem.
    pub tick_needs_fs: bool,
}

/// Which screen lies beneath the overlays: where it stands, and which it is.
#[derive(Clone, Copy, Debug, PartialEq, Eq, Structural)]
pub struct BaseId {
    /// Place in the stack.
    pub at: usize,
    /// The screen, if there is one.
    pub id: Option<u64>,
}

/// What the frame holds after a draw, when a later draw can build on it instead of starting from
/// paper.
#[derive(Clone, Copy, Debug, PartialEq, Eq, Structural)]
pub enum Held {
    /// Exactly the reading page (no overlays drawn yet), by its render key, with the inversion applied
    /// to it: overlays are then drawn over it without a re-render, so no second frame is needed.
    Page(u64, bool),
    /// A sleep screen's draw, at this minute (`now / 60`), with the inversion applied: a minute tick
    /// while asleep repaints only what the time changes.
    Sleep(u32, bool),
}

/// Whether a screen name is the sleep screen the device sleeps behind.
pub open spec fn sleeps(name: Seq<char>) -> bool {
    name == "40-sleep"@ || name == "40-sleep-charging"@
}

/// Whether a screen name is the sleep screen the device sleeps behind.
pub fn is_sleep_screen(name: &str) -> (r: bool)
    ensures
        r == sleeps(name@),
{
    same(name, "40-sleep") || same(name, "40-sleep-charging")
}

/// FNV-1a over the first `n` bytes.
pub open spec fn fnv1a(bytes: Seq<u8>, n: int) -> u64
    decreases n,
{
    if n <= 0 {
        0xcbf29ce484222325
    } else {
        (fnv1a(bytes, n - 1) ^ (bytes[n - 1] as u64)).wrapping_mul(0x100000001b3)
    }
}

/// FNV-1a of the settings' encoding: a cheap in-RAM "did anything change" check.
pub fn settings_hash(bytes: &[u8]) -> (h: u64)
    ensures
        h == fnv1a(bytes@, bytes@.len() as int),
{
    let mut h: u64 = 0xcbf29ce484222325;
    let mut i: usize = 0;
    while i < bytes.len()
        invariant
            i <= bytes@.len(),
            h == fnv1a(bytes@, i as int),
        decreases bytes@.len() - i,
    {
        h = (h ^ (bytes[i] as u64)).wrapping_mul(0x100000001b3);
        i += 1;
    }
    h
}

/// Where the topmost screen that is no overlay stands, from `i` down.
pub open spec fn base_from(st: Seq<PageView>, i: int) -> int
    decreases i,
{
    if i > 0 && st[i].overlay {
        base_from(st, i - 1)
    } else {
        i
    }
}

/// Where the topmost screen that is no overlay stands; the bottom if all are.
pub open spec fn base_at(st: Seq<PageView>) -> int {
    base_from(st, if st.len() > 0 { st.len() - 1 } else { 0 })
}

/// Which screen lies beneath the overlays.
pub open spec fn base_of(st: Seq<PageView>) -> BaseId {
    BaseId {
        at: base_at(st) as usize,
        id: if st.len() > 0 { Some(st[base_at(st)].id) } else { None },
    }
}

/// The stack with room for one more: the oldest history above the root is forgotten.
pub open spec fn with_room(st: Seq<PageView>) -> Seq<PageView>
    decreases st.len(),
{
    if st.len() >= MAX_STACK {
        with_room(st.remove(1))
    } else {
        st
    }
}

/// The stack without its top, which the root never is.
pub open spec fn popped(st: Seq<PageView>) -> Seq<PageView> {
    if st.len() > 1 {
        st.drop_last()
    } else {
        st
    }
}

/// The stack down to the topmost screen of this name, or to the root.
pub open spec fn popped_to(st: Seq<PageView>, name: Seq<char>) -> Seq<PageView>
    decreases st.len(),
{
    if st.len() > 1 && st.last().name != name {
        popped_to(st.drop_last(), name)
    } else {
        st
    }
}

/// The reading page as it opens.
pub open spec fn reading_page(id: u64) -> PageView {
    PageView { id, name: "20-reading"@, overlay: false, tick_needs_fs: true }
}

/// The stack at the reading page: the root, if that is what it is, or a new one.
pub open spec fn at_reader(st: Seq<PageView>, id: u64) -> Seq<PageView> {
    if st.len() > 0 && st[0].name == "20-reading"@ {
        st.take(1)
    } else {
        seq![reading_page(id)]
    }
}

/// A screen as it comes onto the stack.
pub open spec fn opened_page(n: NewScreen, id: u64) -> PageView {
    PageView { id, name: n.name@, overlay: n.overlay, tick_needs_fs: n.tick_needs_fs }
}

/// The stack after an action; `id` is the next screen's.
pub open spec fn stacked(st: Seq<PageView>, action: Action, opens: NewScreen, id: u64) -> Seq<PageView> {
    match action {
        Action::Push(_) => with_room(st).push(opened_page(opens, id)),
        Action::Pop => popped(st),
        Action::Replace(_) => with_room(popped(st)).push(opened_page(opens, id)),
        Action::ToReader => at_reader(st, id),
        Action::PopTo(name) => popped_to(st, name@),
        Action::Open(_) => seq![reading_page(id)],
        Action::PopWith(_) => popped(st),
        _ => st,
    }
}

/// Whether an action opens a screen.
pub open spec fn opens_screen(st: Seq<PageView>, action: Action) -> bool {
    ||| action is Push || action is Replace || action is Open
    ||| action is ToReader && !(st.len() > 0 && st[0].name == "20-reading"@)
}

/// Whether the screens of a stack can be told apart: no two have the same id, and all ids are spent.
pub open spec fn told_apart(st: Seq<PageView>, next_id: int) -> bool {
    &&& forall|i: int| 0 <= i < st.len() ==> (#[trigger] st[i]).id < next_id
    &&& forall|i: int, j: int| 0 <= i < j < st.len() ==> (#[trigger] st[i]).id != (#[trigger] st[j]).id
}

/// How strongly the panel is refreshed after a draw that leaves the stack `st`: with a GC where the screen
/// beneath the overlays is another than one of `marks`, otherwise as it was drawn.
pub open spec fn refreshed(marks: Seq<BaseId>, st: Seq<PageView>, drawn: Refresh) -> Refresh {
    if drawn != Refresh::Nothing && exists|i: int| 0 <= i < marks.len() && #[trigger] marks[i] != base_of(st) {
        Refresh::Gc
    } else {
        drawn
    }
}

/// Whether an action may change which screen lies beneath the overlays.
pub open spec fn structural(action: Action) -> bool {
    action is Push || action is Pop || action is Replace || action is ToReader || action is PopTo || action is Open
        || action is PopWith
}

/// What has to be done after an action, in this order.
#[derive(Clone, Debug, PartialEq, Eq)]
pub struct Plan {
    /// Open this book into the reader.
    pub open: Option<BookId>,
    /// Ask the platform for this.
    pub request: Option<SysRequest>,
    /// Tell the top screen that it is the top again.
    pub resume: bool,
    /// Hand this result to the top screen, and apply the action it answers with; draw if it answers
    /// with none.
    pub deliver: Option<Result_>,
    /// Draw the stack.
    pub draw: bool,
    /// Which screen lay beneath the overlays before, where the action may have changed that.
    pub mark: Option<BaseId>,
}

/// Who deals with an event.
#[derive(Clone, Debug, PartialEq, Eq)]
pub enum Turn {
    /// Nobody.
    Idle,
    /// The sleep screen's minute tick.
    SleepTick,
    /// The top screen takes the key.
    ToKey(KeyEvent),
    /// The top screen takes the event.
    ToEvent,
    /// An action of the interface's own.
    Act(Action),
    /// A request, then an action of the interface's own.
    AskAndAct(SysRequest, Action),
}

/// What follows an event, once the frame is drawn.
#[derive(Clone, Copy, Debug, PartialEq, Eq, Structural)]
pub struct After {
    /// Persist everything and go to sleep.
    pub sleep: bool,
    /// Persist what changed.
    pub save: bool,
}

/// How a draw goes about.
#[derive(Clone, Copy, Debug, PartialEq, Eq, Structural)]
pub struct DrawPlan {
    /// The screen beneath the overlays.
    pub start: usize,
    /// The page in the frame is kept; otherwise the frame is cleared and that screen drawn.
    pub reuse: bool,
    /// The frame is shown inverted: a page that is kept is turned back before the overlays are drawn.
    pub inverted: bool,
}

/// A tick of the clock behind a sleep screen.
#[derive(Clone, Copy, Debug, PartialEq, Eq, Structural)]
pub enum SleepStep {
    /// The frame holds something else: the stack is drawn afresh and shown with a DU.
    Afresh,
    /// The same minute: nothing happens.
    Still,
    /// The screen repaints its time, in a frame turned back meanwhile if it is inverted.
    Repaint(bool),
}

/// The interface: the screen stack plus the state the screens share.
pub struct Ui {
    /// Screens, bottom first. The bottom is always the reader (or the empty home).
    pub screens: Vec<Page>,
    /// The next screen's id.
    pub next_id: u64,
    /// Library index.
    pub lib: Library,
    /// Ingest progress: book, done, total.
    pub ingesting: Vec<(BookId, u32, u32)>,
    /// Text last typed from the phone, taken by the focused text field.
    pub phone_text: Option<String>,
    /// Whether the keys are locked.
    pub locked: bool,
    /// What the frame holds, when the next draw can reuse it.
    pub frame_holds: Option<Held>,
    /// Set while the platform is asleep (sleep screen shown).
    pub asleep: bool,
    /// When positions, stats and settings were last saved.
    pub last_saved: u32,
    /// Hash of the settings as last written, so the periodic save touches the card only when something
    /// changed.
    pub settings_hash: u64,
}

impl Ui {
    /// The stack as it is seen.
    pub open spec fn stack(self) -> Seq<PageView> {
        pages(self.screens@)
    }

    /// The name of the top screen; the empty text without one.
    pub open spec fn top(self) -> Seq<char> {
        if self.stack().len() > 0 {
            self.stack().last().name
        } else {
            Seq::empty()
        }
    }

    /// The screens on the stack can be told apart, and the next id is none of theirs.
    pub open spec fn wf(self) -> bool {
        told_apart(self.stack(), self.next_id as int)
    }

    /// Everything but the stack and the next id is the same.
    pub open spec fn same_but_stack(self, o: Ui) -> bool {
        self == Ui { screens: self.screens, next_id: self.next_id, ..o }
    }

    /// Build the interface around a loaded library: the first-run wizard, or the reading page with the
    /// current book, which is then to be opened.
    pub fn new(lib: Library, first_run_done: bool, settings_hash: u64) -> (ui: Ui)
        ensures
            ui.top() == first_screen(first_run_done),
            ui.wf(),
            ui.lib == lib,
            ui.settings_hash == settings_hash,
            ui.stack() == seq![
                PageView {
                    id: 0,
                    name: if first_run_done { "20-reading"@ } else { "02-firstrun-language"@ },
                    overlay: false,
                    tick_needs_fs: true,
                },
            ],
            ui.next_id == 1,
            ui.ingesting@.len() == 0,
            ui.phone_text is None,
            !ui.locked,
            ui.frame_holds is None,
            !ui.asleep,
            ui.last_saved == 0,
    {
        let name = if first_run_done { "20-reading" } else { "02-firstrun-language" };
        let mut screens: Vec<Page> = Vec::new();
        screens.push(Page { id: 0, name: text::owned(name), overlay: false, tick_needs_fs: true });
        assert(pages(screens@) =~= seq![
            PageView { id: 0, name: name@, overlay: false, tick_needs_fs: true },
        ]);
        Ui {
            screens,
            next_id: 1,
            lib,
            ingesting: Vec::new(),
            phone_text: None,
            locked: false,
            frame_holds: None,
            asleep: false,
            last_saved: 0,
            settings_hash,
        }
    }

    /// The book to open into the reader: the library's current one.
    pub fn open_current(&self) -> (r: Option<BookId>)
        ensures
            r == self.lib.current,
    {
        self.lib.current
    }

    /// Close the open book: what the frame holds is no longer its page.
    pub fn close_book(&mut self)
        ensures
            *final(self) == (Ui { frame_holds: None, ..*old(self) }),
    {
        self.frame_holds = None;
    }

    /// A book was opened into the reader, or could not be.
    pub fn open_book(&mut self, id: BookId, now: u32, opened: bool) -> (r: bool)
        ensures
            final(self).lib.current == current_after(old(self).lib.current, id, opened),
            r == opened,
            final(self).frame_holds is None,
            *final(self) == (Ui { frame_holds: None, lib: final(self).lib, ..*old(self) }),
            !opened ==> final(self).lib == old(self).lib,
            opened ==> final(self).lib.books@ == with_book(
                old(self).lib.books@,
                id,
                |b: BookEntry| crate::index::opened_book(b, now),
            ),
            opened ==> final(self).lib == (Library {
                books: final(self).lib.books,
                current: Some(id),
                dirty: old(self).lib.dirty || old(self).lib.current != Some(id),
                dirty_pos: true,
                generation: if old(self).lib.current != Some(id) {
                    old(self).lib.generation.wrapping_add(1).wrapping_add(1)
                } else {
                    old(self).lib.generation.wrapping_add(1)
                },
                ..old(self).lib
            }),
    {
        self.frame_holds = None;
        if opened {
            self.lib.opened(id, now);
        }
        opened
    }

    /// Name of the top screen.
    pub fn top_name(&self) -> (r: String)
        ensures
            r@ == self.top(),
    {
        let n: usize = self.screens.len();
        if n > 0 {
            assert(self.stack()[n - 1] == self.screens@[n - 1]@);
            self.screens[n - 1].name.clone()
        } else {
            String::new()
        }
    }

    /// Names of all screens, bottom first.
    pub fn stack_names(&self) -> (r: Vec<String>)
        ensures
            text::texts(r@) == self.stack().map_values(|p: PageView| p.name),
    {
        let mut out: Vec<String> = Vec::new();
        let mut i: usize = 0;
        while i < self.screens.len()
            invariant
                i <= self.screens@.len(),
                out@.len() == i,
                forall|j: int| 0 <= j < i ==> (#[trigger] out@[j])@ == self.screens@[j].name@,
            decreases self.screens@.len() - i,
        {
            out.push(self.screens[i].name.clone());
            i += 1;
        }
        assert(text::texts(out@) =~= self.stack().map_values(|p: PageView| p.name));
        out
    }

    fn any_named(&self, name: &str) -> (r: bool)
        ensures
            r == exists|i: int| 0 <= i < self.stack().len() && (#[trigger] self.stack()[i]).name == name@,
    {
        let mut i: usize = 0;
        while i < self.screens.len()
            invariant
                i <= self.screens@.len(),
                forall|j: int| 0 <= j < i ==> (#[trigger] self.stack()[j]).name != name@,
            decreases self.screens@.len() - i,
        {
            if same(&self.screens[i].name, name) {
                assert(self.stack()[i as int].name == name@);
                return true;
            }
            i += 1;
        }
        false
    }

    fn any_sleeps(&self) -> (r: bool)
        ensures
            r == exists|i: int| 0 <= i < self.stack().len() && sleeps((#[trigger] self.stack()[i]).name),
    {
        let mut i: usize = 0;
        while i < self.screens.len()
            invariant
                i <= self.screens@.len(),
                forall|j: int| 0 <= j < i ==> !sleeps((#[trigger] self.stack()[j]).name),
            decreases self.screens@.len() - i,
        {
            if is_sleep_screen(&self.screens[i].name) {
                assert(sleeps(self.stack()[i as int].name));
                return true;
            }
            i += 1;
        }
        false
    }

    /// Identity of the screen beneath the overlays, to tell a change of page from a focus move or an
    /// overlay coming and going.
    pub fn base_id(&self) -> (r: BaseId)
        ensures
            r == base_of(self.stack()),
            r.at == base_at(self.stack()),
            self.screens@.len() > 0 ==> r.at < self.screens@.len(),
            self.screens@.len() == 0 ==> r.at == 0,
    {
        let n: usize = self.screens.len();
        if n == 0 {
            return BaseId { at: 0, id: None };
        }
        let mut i: usize = n - 1;
        while i > 0 && self.screens[i].overlay
            invariant
                i < n == self.screens@.len(),
                base_at(self.stack()) == base_from(self.stack(), i as int),
            decreases i,
        {
            assert(self.stack()[i as int].overlay == self.screens@[i as int].overlay);
            i -= 1;
        }
        assert(self.stack()[i as int] == self.screens@[i as int]@);
        BaseId { at: i, id: Some(self.screens[i].id) }
    }
}

/// A book whose conversion failed.
pub open spec fn failed_book(b: BookEntry, r: BookEntry, msg: Seq<char>) -> bool {
    &&& r == BookEntry { ingest: IngestState::Failed, error: r.error, ..b }
    &&& r.error matches Some(e) && e@ == msg
}

/// What an event changes before anybody deals with it: ingest progress, text from the phone, waking. A
/// failed conversion is written into the book's entry, and the index is then to be saved.
pub open spec fn noted(o: Ui, n: Ui, ev: Event) -> bool {
    match ev {
        Event::Ingest { id, done, total, finished } => {
            let rest = o.ingesting@.filter(|e: (BookId, u32, u32)| e.0 != id);
            &&& n == Ui { ingesting: n.ingesting, lib: n.lib, ..o }
            &&& n.ingesting@ == (if finished is None { rest.push((id, done, total)) } else { rest })
            &&& match (finished, spot(o.lib.books@, id)) {
                (Some(Err(msg)), Some(i)) => {
                    &&& n.lib == (Library {
                        books: n.lib.books,
                        dirty: true,
                        generation: o.lib.generation.wrapping_add(1),
                        ..o.lib
                    })
                    &&& exists|r: BookEntry| #[trigger]
                        failed_book(o.lib.books@[i], r, msg@) && n.lib.books@ == o.lib.books@.update(i, r)
                },
                _ => n.lib == o.lib,
            }
        },
        Event::PhoneText(t) => n == (Ui { phone_text: n.phone_text, ..o }) && (n.phone_text matches Some(s) && s@ == t@),
        Event::Wake => n == (Ui { asleep: false, ..o }),
        _ => n == o,
    }
}

impl Ui {
    /// Whether the top screen owns every key: the sleep screen, or its preview.
    pub open spec fn owns_keys(self) -> bool {
        sleeps(self.top()) || self.top() == "44-picker-preview"@
    }

    /// Who deals with a key, by the universal grammar.
    ///
    /// Locked, only holding Power unlocks; anything else shows the strip, once. A sleep screen (or its
    /// preview) owns every key, so Power wakes rather than stacking another. Elsewhere a long Back opens
    /// Jump, which is a launcher and not a hierarchy: one already open beneath is returned to. Power opens
    /// its menu when held and the sleep screen when pressed.
    pub open spec fn key_turn(self, k: KeyEvent) -> Turn {
        let top = self.top();
        let long = k.kind == KeyKind::Long;
        if self.locked {
            if k.key == Key::Power && long {
                Turn::AskAndAct(SysRequest::LockKeys(false), Action::System(SysRequest::LockKeys(false)))
            } else if top == "45-locked"@ || self.owns_keys() {
                Turn::ToKey(k)
            } else {
                Turn::Act(Action::Push(ScreenAsk::Named("45-locked")))
            }
        } else if self.owns_keys() {
            Turn::ToKey(k)
        } else if k.key == Key::Back && long && top != "42-jump"@ && top != "01-boot"@ && top != "99-recovery"@ {
            if exists|i: int| 0 <= i < self.stack().len() && (#[trigger] self.stack()[i]).name == "42-jump"@ {
                Turn::Act(Action::PopTo("42-jump"))
            } else {
                Turn::Act(Action::Push(ScreenAsk::Named("42-jump")))
            }
        } else if k.key == Key::Power && long && top != "41-power"@ {
            Turn::Act(Action::Push(ScreenAsk::Named("41-power")))
        } else if k.key == Key::Power && k.kind == KeyKind::Press && top != "41-power"@ {
            Turn::Act(Action::Push(ScreenAsk::Named("40-sleep")))
        } else {
            Turn::ToKey(k)
        }
    }

    /// Who deals with an event.
    pub open spec fn turn(self, ev: Event) -> Turn {
        if ev is Tick && self.asleep && sleeps(self.top()) {
            Turn::SleepTick
        } else if self.stack().len() == 0 {
            Turn::Idle
        } else {
            match ev {
                Event::Key(k) => self.key_turn(k),
                Event::PhoneKey(k) => Turn::ToKey(k),
                _ => Turn::ToEvent,
            }
        }
    }

    /// Take note of an event, and say who deals with it.
    pub fn handle(&mut self, ev: &Event) -> (t: Turn)
        ensures
            noted(*old(self), *final(self), *ev),
            t == final(self).turn(*ev),
    {
        self.note(ev);
        let top = self.top_name();
        let tick = match ev {
            Event::Tick => true,
            _ => false,
        };
        if tick && self.asleep && is_sleep_screen(&top) {
            return Turn::SleepTick;
        }
        if self.screens.len() == 0 {
            return Turn::Idle;
        }
        match ev {
            Event::Key(k) => self.turn_for_key(*k),
            Event::PhoneKey(k) => Turn::ToKey(*k),
            _ => Turn::ToEvent,
        }
    }

    fn note(&mut self, ev: &Event)
        ensures
            noted(*old(self), *final(self), *ev),
    {
        match ev {
            Event::Ingest { id, done, total, finished } => {
                self.forget_ingest(*id);
                match finished {
                    None => self.ingesting.push((*id, *done, *total)),
                    // On success the ingest driver has updated the entry in the library already.
                    Some(Ok(())) => {},
                    Some(Err(msg)) => {
                        let ghost before = self.lib.books@;
                        let mut found = false;
                        if let Some(e) = self.lib.get_mut(*id) {
                            e.ingest = IngestState::Failed;
                            e.error = Some(msg.clone());
                            found = true;
                        }
                        if found {
                            self.lib.touch();
                        }
                        proof {
                            if let Some(i) = spot(before, *id) {
                                assert(is_first(before, *id, i));
                                let r = self.lib.books@[i];
                                assert(failed_book(before[i], r, msg@));
                                assert(self.lib.books@ =~= before.update(i, r));
                            }
                        }
                    },
                }
            },
            Event::PhoneText(t) => {
                self.phone_text = Some(t.clone());
            },
            Event::Wake => {
                self.asleep = false;
            },
            _ => {},
        }
    }

    fn forget_ingest(&mut self, id: BookId)
        ensures
            *final(self) == (Ui { ingesting: final(self).ingesting, ..*old(self) }),
            final(self).ingesting@ == old(self).ingesting@.filter(|e: (BookId, u32, u32)| e.0 != id),
    {
        let ghost all = self.ingesting@;
        let ghost keep_if = |e: (BookId, u32, u32)| e.0 != id;
        let mut kept: Vec<(BookId, u32, u32)> = Vec::new();
        let mut i: usize = 0;
        proof {
            reveal(Seq::filter);
            assert(kept@ =~= all.take(0).filter(keep_if));
        }
        while i < self.ingesting.len()
            invariant
                i <= self.ingesting@.len(),
                self.ingesting@ == all,
                *self == *old(self),
                keep_if == (|e: (BookId, u32, u32)| e.0 != id),
                kept@ == all.take(i as int).filter(keep_if),
            decreases self.ingesting@.len() - i,
        {
            proof {
                reveal(Seq::filter);
                assert(all.take(i + 1).drop_last() =~= all.take(i as int));
            }
            let e = self.ingesting[i];
            if e.0 != id {
                kept.push(e);
            }
            i += 1;
        }
        assert(all.take(i as int) =~= all);
        self.ingesting = kept;
    }

    fn turn_for_key(&self, k: KeyEvent) -> (t: Turn)
        ensures
            t == self.key_turn(k),
    {
        let top = self.top_name();
        let owns = is_sleep_screen(&top) || same(&top, "44-picker-preview");
        if self.locked {
            if k.key == Key::Power && k.kind == KeyKind::Long {
                return Turn::AskAndAct(SysRequest::LockKeys(false), Action::System(SysRequest::LockKeys(false)));
            }
            if same(&top, "45-locked") || owns {
                return Turn::ToKey(k);
            }
            return Turn::Act(Action::Push(ScreenAsk::Named("45-locked")));
        }
        if owns {
            return Turn::ToKey(k);
        }
        if k.is_long(Key::Back) && !same(&top, "42-jump") && !same(&top, "01-boot") && !same(&top, "99-recovery") {
            if self.any_named("42-jump") {
                return Turn::Act(Action::PopTo("42-jump"));
            }
            return Turn::Act(Action::Push(ScreenAsk::Named("42-jump")));
        }
        if k.is_long(Key::Power) && !same(&top, "41-power") {
            return Turn::Act(Action::Push(ScreenAsk::Named("41-power")));
        }
        if k.is(Key::Power) && !same(&top, "41-power") {
            return Turn::Act(Action::Push(ScreenAsk::Named("40-sleep")));
        }
        Turn::ToKey(k)
    }

    fn open_page(&mut self, opens: &NewScreen)
        ensures
            final(self).same_but_stack(*old(self)),
            final(self).next_id == old(self).next_id.wrapping_add(1),
            final(self).stack() == old(self).stack().push(opened_page(*opens, old(self).next_id)),
    {
        let p = Page {
            id: self.next_id,
            name: opens.name.clone(),
            overlay: opens.overlay,
            tick_needs_fs: opens.tick_needs_fs,
        };
        self.next_id = self.next_id.wrapping_add(1);
        self.screens.push(p);
        assert(self.stack() =~= old(self).stack().push(opened_page(*opens, old(self).next_id)));
    }

    /// Push a screen, forgetting the oldest history above the root when the stack is at its limit (Jump
    /// can launch from any screen, so history is bounded, not the depth).
    fn push_bounded(&mut self, opens: &NewScreen)
        ensures
            final(self).same_but_stack(*old(self)),
            final(self).next_id == old(self).next_id.wrapping_add(1),
            final(self).stack() == with_room(old(self).stack()).push(opened_page(*opens, old(self).next_id)),
    {
        while self.screens.len() >= MAX_STACK
            invariant
                self.same_but_stack(*old(self)),
                self.next_id == old(self).next_id,
                with_room(self.stack()) == with_room(old(self).stack()),
            decreases self.screens@.len(),
        {
            let ghost before = self.stack();
            self.screens.remove(1);
            assert(self.stack() =~= before.remove(1));
        }
        self.open_page(opens);
    }

    fn pop_one(&mut self)
        ensures
            final(self).same_but_stack(*old(self)),
            final(self).next_id == old(self).next_id,
            final(self).stack() == popped(old(self).stack()),
    {
        if self.screens.len() > 1 {
            let _ = self.screens.pop();
            assert(self.stack() =~= old(self).stack().drop_last());
        }
    }

    fn pop_down_to(&mut self, name: &str)
        ensures
            final(self).same_but_stack(*old(self)),
            final(self).next_id == old(self).next_id,
            final(self).stack() == popped_to(old(self).stack(), name@),
    {
        while self.screens.len() > 1 && !same(&self.screens[self.screens.len() - 1].name, name)
            invariant
                self.same_but_stack(*old(self)),
                self.next_id == old(self).next_id,
                popped_to(self.stack(), name@) == popped_to(old(self).stack(), name@),
            decreases self.screens@.len(),
        {
            let ghost before = self.stack();
            assert(before.last() == self.screens@.last()@);
            let _ = self.screens.pop();
            assert(self.stack() =~= before.drop_last());
        }
        if self.screens.len() > 1 {
            assert(self.stack().last() == self.screens@.last()@);
        }
    }

    fn go_to_reader(&mut self)
        ensures
            final(self).same_but_stack(*old(self)),
            final(self).next_id == if opens_screen(old(self).stack(), Action::ToReader) {
                old(self).next_id.wrapping_add(1)
            } else {
                old(self).next_id
            },
            final(self).stack() == at_reader(old(self).stack(), old(self).next_id),
    {
        self.screens.truncate(1);
        assert(old(self).stack().len() > 0 ==> self.stack() =~= old(self).stack().take(1));
        if self.screens.len() > 0 {
            assert(self.stack()[0] == self.screens@[0]@);
        }
        if self.screens.len() == 0 || !same(&self.screens[0].name, "20-reading") {
            self.start_reading();
        }
    }

    fn start_reading(&mut self)
        ensures
            final(self).same_but_stack(*old(self)),
            final(self).next_id == old(self).next_id.wrapping_add(1),
            final(self).stack() == seq![reading_page(old(self).next_id)],
    {
        self.screens.clear();
        let p = NewScreen { name: text::owned("20-reading"), overlay: false, tick_needs_fs: true };
        self.open_page(&p);
        assert(self.stack() =~= seq![reading_page(old(self).next_id)]);
    }

    /// Apply an action to the stack, and say what has to be done for it. `opens` is what the screen that
    /// the action opens says of itself.
    pub fn apply(&mut self, action: Action, opens: &NewScreen) -> (p: Plan)
        ensures
            is_plan(action, p),
            final(self).locked == locked_after(old(self).locked, action),
            final(self).stack() == stacked(old(self).stack(), action, *opens, old(self).next_id),
            final(self).next_id == if opens_screen(old(self).stack(), action) {
                old(self).next_id.wrapping_add(1)
            } else {
                old(self).next_id
            },
            old(self).wf() && old(self).next_id < u64::MAX ==> final(self).wf(),
            0 < old(self).stack().len() <= MAX_STACK ==> 0 < final(self).stack().len() <= MAX_STACK,
            *final(self) == (Ui {
                screens: final(self).screens,
                next_id: final(self).next_id,
                locked: match action {
                    Action::System(SysRequest::LockKeys(l)) => l,
                    _ => old(self).locked,
                },
                asleep: old(self).asleep || action == Action::System(SysRequest::Sleep),
                ..*old(self)
            }),
            p.mark == if structural(action) {
                Some(base_of(old(self).stack()))
            } else {
                None
            },
            p.open == match action {
                Action::Open(id) => Some(id),
                _ => None,
            },
            p.resume == (action is Pop || action is ToReader || action is PopTo),
            p.draw == !(action is Nothing || action is PopWith),
            match action {
                Action::PopWith(r) => p.deliver == Some(r),
                _ => p.deliver is None,
            },
            match action {
                Action::System(r) => p.request == Some(r),
                _ => p.request is None,
            },
    {
        proof {
            if self.wf() {
                law_screens_stay_apart(self.stack(), action, *opens, self.next_id);
            }
            if 0 < self.stack().len() <= MAX_STACK {
                law_stack_is_bounded(self.stack(), action, *opens, self.next_id);
            }
        }
        let before = self.base_id();
        let mut p = Plan { open: None, request: None, resume: false, deliver: None, draw: true, mark: Some(before) };
        match action {
            Action::Nothing => {
                p.draw = false;
                p.mark = None;
            },
            Action::Redraw => {
                p.mark = None;
            },
            Action::Push(_) => self.push_bounded(opens),
            Action::Pop => {
                self.pop_one();
                p.resume = true;
            },
            Action::Replace(_) => {
                self.pop_one();
                self.push_bounded(opens);
            },
            Action::ToReader => {
                self.go_to_reader();
                p.resume = true;
            },
            Action::PopTo(name) => {
                self.pop_down_to(name);
                p.resume = true;
            },
            Action::Open(id) => {
                p.open = Some(id);
                self.start_reading();
            },
            Action::System(req) => {
                match &req {
                    SysRequest::Sleep => {
                        self.asleep = true;
                    },
                    SysRequest::LockKeys(l) => {
                        self.locked = *l;
                    },
                    _ => {},
                }
                p.request = Some(req);
                p.mark = None;
            },
            Action::PopWith(r) => {
                self.pop_one();
                p.deliver = Some(r);
                p.draw = false;
            },
        }
        p
    }

    /// How strongly the panel is refreshed after a draw: a change of the screen beneath the overlays is a
    /// full (GC) refresh; a redraw of the same screen is what the screen asked for; overlays coming and
    /// going leave it at that. `marks` are those of the actions that led here.
    pub fn refresh_after(&self, marks: &Vec<BaseId>, drawn: Refresh) -> (r: Refresh)
        ensures
            r == refreshed(marks@, self.stack(), drawn),
    {
        if drawn == Refresh::Nothing {
            return drawn;
        }
        let now = self.base_id();
        let mut i: usize = 0;
        while i < marks.len()
            invariant
                i <= marks@.len(),
                drawn != Refresh::Nothing,
                now == base_of(self.stack()),
                forall|j: int| 0 <= j < i ==> #[trigger] marks@[j] == now,
            decreases marks@.len() - i,
        {
            if marks[i] != now {
                return Refresh::Gc;
            }
            i += 1;
        }
        drawn
    }

    /// What follows an event at `now`, once its action is applied and drawn.
    ///
    /// A sleep screen on top means the device goes to sleep once this frame is on the panel, whichever
    /// screen put it there; when it has left, the next one must ask for sleep again. Positions, stats and
    /// settings are persisted on the idle tick, never inside a key press.
    pub fn settle(&mut self, ev: &Event, now: u32) -> (a: After)
        ensures
            settled(*old(self), *ev, now, a, *final(self)),
            a.sleep == (sleeps(old(self).top()) && !old(self).asleep),
            a.save == (ev is Tick && now - old(self).last_saved >= SAVE_EVERY),
            *final(self) == (Ui {
                asleep: if a.sleep {
                    true
                } else {
                    old(self).asleep && exists|i: int|
                        0 <= i < old(self).stack().len() && sleeps((#[trigger] old(self).stack()[i]).name)
                },
                last_saved: if a.save { now } else { old(self).last_saved },
                ..*old(self)
            }),
    {
        let top = self.top_name();
        let sleep = is_sleep_screen(&top) && !self.asleep;
        if sleep {
            self.asleep = true;
        } else if !self.any_sleeps() {
            self.asleep = false;
        }
        let tick = match ev {
            Event::Tick => true,
            _ => false,
        };
        let save = tick && now.saturating_sub(self.last_saved) >= SAVE_EVERY;
        if save {
            self.last_saved = now;
        }
        After { sleep, save }
    }

    /// Whether the next sleeping minute tick needs the card.
    ///
    /// The platform cuts the card's power rail once a light sleep has run long enough to be worth it; it
    /// asks this first. True when the frame no longer holds the sleep screen (the tick redraws from
    /// scratch, which reads the card) or when the screen itself says it reads.
    pub fn sleep_tick_needs_fs(&self) -> (r: bool)
        ensures
            r == tick_needs_card(self.frame_holds, self.stack()),
            r == (!(self.frame_holds matches Some(Held::Sleep(_, _))) || self.stack().len() == 0
                || self.stack().last().tick_needs_fs),
    {
        match self.frame_holds {
            Some(Held::Sleep(_, _)) => {
                let n: usize = self.screens.len();
                if n == 0 {
                    return true;
                }
                assert(self.stack()[n - 1] == self.screens@[n - 1]@);
                self.screens[n - 1].tick_needs_fs
            },
            _ => true,
        }
    }

    /// A tick while asleep, at `now` seconds: when the minute has changed since the sleep screen was drawn,
    /// the screen repaints its time in the frame, which still holds its last draw; within the same minute
    /// nothing happens.
    pub fn sleep_tick(&mut self, now: u32) -> (r: SleepStep)
        ensures
            (r, final(self).frame_holds) == sleep_stepped(old(self).frame_holds, now),
            match old(self).frame_holds {
                Some(Held::Sleep(drawn, inverted)) => if drawn == now / 60 {
                    r is Still && *final(self) == *old(self)
                } else {
                    r == SleepStep::Repaint(inverted) && *final(self) == (Ui {
                        frame_holds: Some(Held::Sleep(now / 60, inverted)),
                        ..*old(self)
                    })
                },
                _ => r is Afresh && *final(self) == *old(self),
            },
    {
        let minute: u32 = now / 60;
        match self.frame_holds {
            Some(Held::Sleep(drawn, inverted)) => {
                if drawn == minute {
                    return SleepStep::Still;
                }
                self.frame_holds = Some(Held::Sleep(minute, inverted));
                SleepStep::Repaint(inverted)
            },
            _ => SleepStep::Afresh,
        }
    }

    /// What the frame holds after a draw, if a later one can build on it: never with overlays on it.
    pub open spec fn held_after(self, render_key: Option<u64>, inverted: bool, now: u32) -> Option<Held> {
        let st = self.stack();
        let b = base_at(st);
        if b + 1 < st.len() || st.len() == 0 {
            None
        } else if st[b].name == "20-reading"@ && render_key is Some {
            Some(Held::Page(render_key->0, inverted))
        } else if sleeps(st[b].name) {
            Some(Held::Sleep(now / 60, inverted))
        } else {
            None
        }
    }

    /// Draw the stack into the frame: the topmost non-overlay screen, then overlays above it. When the frame
    /// already holds the reading page the overlays sit on, the page is kept and only the overlays are
    /// drawn. `render_key` is that of the open book's page, `inverted` the setting, `now` the time.
    pub fn draw(&mut self, render_key: Option<u64>, inverted: bool, now: u32) -> (p: DrawPlan)
        ensures
            p == old(self).draw_plan(render_key, inverted),
            p.start == base_at(old(self).stack()),
            p.inverted == inverted,
            p.reuse == (base_at(old(self).stack()) + 1 < old(self).stack().len() && old(self).stack()[base_at(
                old(self).stack(),
            )].name == "20-reading"@ && (render_key matches Some(k) && old(self).frame_holds == Some(
                Held::Page(k, inverted),
            ))),
            *final(self) == (Ui { frame_holds: old(self).held_after(render_key, inverted, now), ..*old(self) }),
    {
        let base = self.base_id();
        let start: usize = base.at;
        let n: usize = self.screens.len();
        if n == 0 {
            self.frame_holds = None;
            return DrawPlan { start, reuse: false, inverted };
        }
        assert(self.stack()[start as int] == self.screens@[start as int]@);
        let has_overlays = start < n - 1;
        let reading = same(&self.screens[start].name, "20-reading");
        let page_key: Option<u64> = if reading { render_key } else { None };
        let mut reuse = false;
        if let (Some(k), Some(Held::Page(held, inv))) = (page_key, self.frame_holds) {
            reuse = has_overlays && held == k && inv == inverted;
        }
        let sleep_base = is_sleep_screen(&self.screens[start].name);
        self.frame_holds = if has_overlays {
            None
        } else if let Some(k) = page_key {
            Some(Held::Page(k, inverted))
        } else if sleep_base {
            Some(Held::Sleep(now / 60, inverted))
        } else {
            None
        };
        DrawPlan { start, reuse, inverted }
    }

    /// How strongly a drawn frame is refreshed, before the stack's changes count: as the screen beneath the
    /// overlays asked, `base`, or with a DU where its page was kept. Overlays cover part of the page: a DU is
    /// enough whatever they ask for.
    pub fn drawn(p: &DrawPlan, base: Option<Refresh>) -> (r: Refresh)
        ensures
            r == drawn_as(p.reuse, base),
            r == match base {
                Some(asked) => if p.reuse {
                    Refresh::Du
                } else {
                    asked
                },
                None => Refresh::Du,
            },
    {
        match base {
            Some(asked) => {
                if p.reuse {
                    Refresh::Du
                } else {
                    asked
                }
            },
            None => Refresh::Du,
        }
    }

    /// Whether the settings differ from what was last written, by the hash of their encoding.
    pub fn settings_changed(&self, hash: u64) -> (r: bool)
        ensures
            r == (hash != self.settings_hash),
    {
        hash != self.settings_hash
    }

    /// The settings were written, or not; `hash` is that of their encoding.
    pub fn settings_saved(&mut self, hash: u64, ok: bool)
        ensures
            *final(self) == (Ui { settings_hash: if ok { hash } else { old(self).settings_hash }, ..*old(self) }),
    {
        if ok {
            self.settings_hash = hash;
        }
    }

    /// Push a screen from outside (the platform opening Drop on a hotspot).
    pub fn push(&mut self, ask: ScreenAsk, opens: &NewScreen) -> (p: Plan)
        ensures
            final(self).stack() == with_room(old(self).stack()).push(opened_page(*opens, old(self).next_id)),
            final(self).same_but_stack(*old(self)),
            final(self).next_id == old(self).next_id.wrapping_add(1),
            old(self).wf() && old(self).next_id < u64::MAX ==> final(self).wf(),
            p.draw,
            p.mark == Some(base_of(old(self).stack())),
            p.open is None,
            p.request is None,
            !p.resume,
            p.deliver is None,
    {
        self.apply(Action::Push(ask), opens)
    }

    /// The top screen goes by another name now.
    pub fn rename_top(&mut self, name: &str)
        ensures
            final(self).same_but_stack(*old(self)),
            final(self).next_id == old(self).next_id,
            old(self).wf() ==> final(self).wf(),
            old(self).stack().len() == 0 ==> final(self).stack() == old(self).stack(),
            old(self).stack().len() > 0 ==> final(self).stack() == old(self).stack().drop_last().push(
                PageView { name: name@, ..old(self).stack().last() },
            ),
    {
        let n: usize = self.screens.len();
        if n > 0 {
            assert(self.stack()[n - 1] == self.screens@[n - 1]@);
            self.screens[n - 1].name = text::owned(name);
            assert(self.stack() =~= old(self).stack().drop_last().push(
                PageView { name: name@, ..old(self).stack().last() },
            ));
        }
    }
}

proof fn lemma_room(st: Seq<PageView>)
    ensures
        with_room(st).len() < MAX_STACK,
        st.len() > 0 ==> with_room(st).len() > 0 && with_room(st)[0] == st[0],
        st.len() < MAX_STACK ==> with_room(st) == st,
    decreases st.len(),
{
    if st.len() >= MAX_STACK {
        lemma_room(st.remove(1));
    }
}

proof fn lemma_popped_to(st: Seq<PageView>, name: Seq<char>)
    ensures
        popped_to(st, name).len() <= st.len(),
        st.len() > 0 ==> popped_to(st, name).len() > 0 && popped_to(st, name)[0] == st[0],
    decreases st.len(),
{
    if st.len() > 1 && st.last().name != name {
        lemma_popped_to(st.drop_last(), name);
    }
}

/// The stack never empties and never outgrows its bound, whatever the action.
pub proof fn law_stack_is_bounded(st: Seq<PageView>, action: Action, opens: NewScreen, id: u64)
    requires
        0 < st.len() <= MAX_STACK,
    ensures
        0 < stacked(st, action, opens, id).len() <= MAX_STACK,
{
    lemma_room(st);
    lemma_room(popped(st));
    if let Action::PopTo(name) = action {
        lemma_popped_to(st, name@);
    }
}

/// The root stays at the bottom, whatever comes and goes above it; only going to the reader, or opening
/// a book, puts another there, and then it is the reading page.
pub proof fn law_root_stays(st: Seq<PageView>, action: Action, opens: NewScreen, id: u64)
    requires
        0 < st.len(),
    ensures
        stacked(st, action, opens, id)[0] == st[0] || stacked(st, action, opens, id) == seq![reading_page(id)],
        !(action is ToReader || action is Open) ==> stacked(st, action, opens, id)[0] == st[0],
{
    lemma_room(st);
    lemma_room(popped(st));
    if let Action::PopTo(name) = action {
        lemma_popped_to(st, name@);
    }
}

proof fn lemma_room_apart(st: Seq<PageView>, next_id: int)
    requires
        told_apart(st, next_id),
    ensures
        told_apart(with_room(st), next_id),
        forall|i: int| 0 <= i < with_room(st).len() ==> st.contains(#[trigger] with_room(st)[i]),
    decreases st.len(),
{
    if st.len() >= MAX_STACK {
        let less = st.remove(1);
        assert forall|i: int| 0 <= i < less.len() implies (#[trigger] less[i]).id < next_id && st.contains(less[i]) by {
            assert(less[i] == st[if i < 1 { i } else { i + 1 }]);
        }
        assert forall|i: int, j: int| 0 <= i < j < less.len() implies (#[trigger] less[i]).id != (#[trigger] less[j]).id by {
            assert(less[i] == st[if i < 1 { i } else { i + 1 }]);
            assert(less[j] == st[if j < 1 { j } else { j + 1 }]);
        }
        lemma_room_apart(less, next_id);
        assert forall|i: int| 0 <= i < with_room(st).len() implies st.contains(#[trigger] with_room(st)[i]) by {
            assert(less.contains(with_room(less)[i]));
            let k = choose|k: int| 0 <= k < less.len() && less[k] == with_room(less)[i];
            assert(st.contains(less[k]));
        }
    }
}

proof fn lemma_part(st: Seq<PageView>, name: Seq<char>)
    ensures
        popped_to(st, name).is_prefix_of(st),
    decreases st.len(),
{
    if st.len() > 1 && st.last().name != name {
        lemma_part(st.drop_last(), name);
        assert(st.drop_last().is_prefix_of(st));
    }
}

proof fn lemma_prefix_apart(part: Seq<PageView>, st: Seq<PageView>, next_id: int)
    requires
        told_apart(st, next_id),
        part.is_prefix_of(st),
    ensures
        told_apart(part, next_id),
        forall|i: int| 0 <= i < part.len() ==> st.contains(#[trigger] part[i]),
{
    assert forall|i: int| 0 <= i < part.len() implies part[i] == st[i] by {
        assert(part == st.subrange(0, part.len() as int));
    }
}

/// Screens stay apart, whatever the action: every screen on the stack was there before or is the new one,
/// and no two have the same id.
pub proof fn law_screens_stay_apart(st: Seq<PageView>, action: Action, opens: NewScreen, id: u64)
    requires
        told_apart(st, id as int),
    ensures
        told_apart(stacked(st, action, opens, id), id + (if opens_screen(st, action) { 1int } else { 0 })),
        forall|i: int|
            0 <= i < stacked(st, action, opens, id).len() ==> st.contains(#[trigger] stacked(st, action, opens, id)[i])
                || stacked(st, action, opens, id)[i].id == id,
{
    lemma_prefix_apart(popped(st), st, id as int);
    lemma_room_apart(st, id as int);
    lemma_room_apart(popped(st), id as int);
    match action {
        Action::PopTo(name) => {
            lemma_part(st, name@);
            lemma_prefix_apart(popped_to(st, name@), st, id as int);
        },
        Action::ToReader => {
            if st.len() > 0 {
                lemma_prefix_apart(st.take(1), st, id as int);
            }
        },
        Action::Replace(_) => {
            assert forall|i: int| 0 <= i < with_room(popped(st)).len() implies st.contains(#[trigger] with_room(popped(st))[i]) by {
                assert(popped(st).contains(with_room(popped(st))[i]));
                let k = choose|k: int| 0 <= k < popped(st).len() && popped(st)[k] == with_room(popped(st))[i];
                assert(st.contains(popped(st)[k]));
            }
        },
        Action::Nothing | Action::Redraw | Action::System(_) => {
            lemma_prefix_apart(st, st, id as int);
        },
        _ => {},
    }
}

/// The refresh policy: an action that changes which page lies beneath the overlays is followed by a full
/// refresh of what is drawn then; where the page stays, and stays where it is, the panel is refreshed as
/// the draw asks.
pub proof fn law_another_page_is_a_full_refresh(
    st: Seq<PageView>,
    action: Action,
    opens: NewScreen,
    id: u64,
    drawn: Refresh,
)
    requires
        told_apart(st, id as int),
        st.len() > 0,
        drawn != Refresh::Nothing,
    ensures
        ({
            let now = stacked(st, action, opens, id);
            let marks = if structural(action) { seq![base_of(st)] } else { Seq::empty() };
            &&& now[base_at(now)] != st[base_at(st)] ==> refreshed(marks, now, drawn) == Refresh::Gc
            &&& now[base_at(now)] == st[base_at(st)] && base_at(now) == base_at(st) ==> refreshed(marks, now, drawn) == drawn
        }),
{
    let now = stacked(st, action, opens, id);
    law_screens_stay_apart(st, action, opens, id);
    lemma_base_from(st, st, st.len() - 1);
    lemma_room(st);
    lemma_room(popped(st));
    if let Action::PopTo(name) = action {
        lemma_popped_to(st, name@);
    }
    assert(now.len() > 0);
    lemma_base_from(now, now, now.len() - 1);
    let marks = seq![base_of(st)];
    if structural(action) {
        assert(marks[0] == base_of(st));
        if now[base_at(now)] != st[base_at(st)] {
            let b = now[base_at(now)];
            if st.contains(b) {
                let k = choose|k: int| 0 <= k < st.len() && st[k] == b;
                assert(st[k].id != st[base_at(st)].id);
            }
            assert(marks[0] != base_of(now));
        }
    }
}

/// A screen that is pushed, or that replaces another, is on top; where the stack is full, the oldest screen just
/// above the root makes room. The root is put aside only by going to the reader from another root, or by opening a
/// book, and popping it does nothing.
pub proof fn law_history_goes_from_above_the_root(st: Seq<PageView>, action: Action, opens: NewScreen, id: u64)
    requires
        0 < st.len() <= MAX_STACK,
    ensures
        action is Push || action is Replace ==> stacked(st, action, opens, id).last() == opened_page(opens, id),
        action is Push ==> stacked(st, action, opens, id) == (if st.len() == MAX_STACK {
            st.remove(1)
        } else {
            st
        }).push(opened_page(opens, id)),
        action is Replace ==> stacked(st, action, opens, id) == popped(st).push(opened_page(opens, id)),
        !(action is Open || (action is ToReader && st[0].name != "20-reading"@)) ==> stacked(st, action, opens, id)[0] == st[0],
        st.len() == 1 && (action is Pop || action is PopWith) ==> stacked(st, action, opens, id) == st,
{
    lemma_room(st);
    lemma_room(popped(st));
    lemma_room(st.remove(1));
    if let Action::PopTo(name) = action {
        lemma_popped_to(st, name@);
    }
}

/// Popping undoes pushing, as long as no history had to be forgotten.
pub proof fn law_pop_undoes_push(st: Seq<PageView>, ask: ScreenAsk, opens: NewScreen, other: NewScreen, id: u64, id2: u64)
    requires
        0 < st.len() < MAX_STACK,
    ensures
        stacked(stacked(st, Action::Push(ask), opens, id), Action::Pop, other, id2) == st,
{
    lemma_room(st);
    assert(st.push(opened_page(opens, id)).drop_last() =~= st);
}

proof fn lemma_base_from(a: Seq<PageView>, b: Seq<PageView>, i: int)
    requires
        0 <= i < a.len(),
        i < b.len(),
        forall|j: int| 0 <= j <= i ==> a[j] == b[j],
    ensures
        base_from(a, i) == base_from(b, i),
        0 <= base_from(a, i) <= i,
    decreases i,
{
    if i > 0 && a[i].overlay {
        lemma_base_from(a, b, i - 1);
    }
}

/// An overlay coming up leaves the screen beneath it what it was, so the panel is refreshed as the draw
/// asks and no more; a screen that is none is the new one beneath.
pub proof fn law_overlays_leave_the_base(st: Seq<PageView>, ask: ScreenAsk, opens: NewScreen, id: u64)
    requires
        0 < st.len() < MAX_STACK,
    ensures
        opens.overlay ==> base_of(stacked(st, Action::Push(ask), opens, id)) == base_of(st),
        opens.overlay ==> forall|drawn: Refresh| #[trigger]
            refreshed(seq![base_of(st)], stacked(st, Action::Push(ask), opens, id), drawn) == drawn,
        !opens.overlay ==> base_at(stacked(st, Action::Push(ask), opens, id)) == st.len(),
{
    lemma_room(st);
    let now = st.push(opened_page(opens, id));
    lemma_base_from(st, now, st.len() - 1);
}

/// Locked, no key but a held Power unlocks: any other either goes to the screen that is there to take it
/// or brings up the strip.
pub proof fn law_only_power_unlocks(ui: Ui, k: KeyEvent)
    requires
        ui.locked,
        !(k.key == Key::Power && k.kind == KeyKind::Long),
    ensures
        ui.key_turn(k) == Turn::ToKey(k) || ui.key_turn(k) == Turn::Act(Action::Push(ScreenAsk::Named("45-locked"))),
{
}

/// The strip is shown once: with it on top, every key but the one that unlocks goes to it.
pub proof fn law_strip_is_shown_once(ui: Ui, k: KeyEvent)
    requires
        ui.locked,
        ui.top() == "45-locked"@,
        !(k.key == Key::Power && k.kind == KeyKind::Long),
    ensures
        ui.key_turn(k) == Turn::ToKey(k),
{
}

/// A sleep screen gets every key while nothing is locked, so Power can wake the device.
pub proof fn law_sleep_screen_gets_the_keys(ui: Ui, k: KeyEvent)
    requires
        !ui.locked,
        sleeps(ui.top()),
    ensures
        ui.key_turn(k) == Turn::ToKey(k),
{
}

/// Jump is never stacked on itself: a long Back with Jump on the stack below returns to it.
pub proof fn law_jump_is_returned_to(ui: Ui, i: int)
    requires
        !ui.locked,
        !ui.owns_keys(),
        ui.top() != "42-jump"@,
        ui.top() != "01-boot"@,
        ui.top() != "99-recovery"@,
        0 <= i < ui.stack().len(),
        ui.stack()[i].name == "42-jump"@,
    ensures
        ui.key_turn(KeyEvent { key: Key::Back, kind: KeyKind::Long }) == Turn::Act(Action::PopTo("42-jump")),
{
}

/// What the frame holds is never a page with overlays on it: after such a draw the next one starts from
/// paper, or from the page drawn again.
pub proof fn law_overlays_are_not_held(ui: Ui, render_key: Option<u64>, inverted: bool, now: u32)
    requires
        base_at(ui.stack()) + 1 < ui.stack().len(),
    ensures
        ui.held_after(render_key, inverted, now) is None,
{
}

/// Whether this is how things stand once an event was handled: asleep under a sleep screen, and saved now and then.
pub open spec fn settled(o: Ui, ev: Event, now: u32, a: After, n: Ui) -> bool {
    &&& a.sleep == (sleeps(o.top()) && !o.asleep)
    &&& a.save == (ev is Tick && now - o.last_saved >= SAVE_EVERY)
    &&& n.asleep == (a.sleep || (o.asleep && exists|i: int|
        0 <= i < o.stack().len() && sleeps((#[trigger] o.stack()[i]).name)))
    &&& n.last_saved == if a.save {
        now
    } else {
        o.last_saved
    }
}

/// What a minute of sleep asks, and what the frame holds then.
pub open spec fn sleep_stepped(holds: Option<Held>, now: u32) -> (SleepStep, Option<Held>) {
    match holds {
        Some(Held::Sleep(drawn, inverted)) => if drawn == now / 60 {
            (SleepStep::Still, holds)
        } else {
            (SleepStep::Repaint(inverted), Some(Held::Sleep(now / 60, inverted)))
        },
        _ => (SleepStep::Afresh, holds),
    }
}

/// Whether a minute of sleep needs the card.
pub open spec fn tick_needs_card(holds: Option<Held>, st: Seq<PageView>) -> bool {
    !(holds matches Some(Held::Sleep(_, _))) || st.len() == 0 || st.last().tick_needs_fs
}

/// How what was drawn is refreshed.
pub open spec fn drawn_as(reuse: bool, base: Option<Refresh>) -> Refresh {
    match base {
        Some(asked) => if reuse {
            Refresh::Du
        } else {
            asked
        },
        None => Refresh::Du,
    }
}

/// Whether this is what an action has done besides the stack.
pub open spec fn is_plan(action: Action, p: Plan) -> bool {
    &&& p.open == match action {
        Action::Open(id) => Some(id),
        _ => None,
    }
    &&& p.request == match action {
        Action::System(r) => Some(r),
        _ => None,
    }
    &&& p.deliver == match action {
        Action::PopWith(r) => Some(r),
        _ => None,
    }
    &&& p.resume == (action is Pop || action is ToReader || action is PopTo)
    &&& p.draw == !(action is Nothing || action is PopWith)
    &&& p.mark is Some == structural(action)
}

/// Whether the keys are locked after an action.
pub open spec fn locked_after(locked: bool, action: Action) -> bool {
    match action {
        Action::System(SysRequest::LockKeys(l)) => l,
        _ => locked,
    }
}

impl Ui {
    /// What is drawn, and whether the page that the frame holds is kept under what lies over it.
    pub open spec fn draw_plan(self, render_key: Option<u64>, inverted: bool) -> DrawPlan {
        let b = base_at(self.stack());
        DrawPlan {
            start: b as usize,
            reuse: b + 1 < self.stack().len() && self.stack()[b].name == "20-reading"@ && (render_key matches Some(k)
                && self.frame_holds == Some(Held::Page(k, inverted))),
            inverted,
        }
    }
}

/// An action does its one thing: a book that is to be opened is opened, a request is made, a result is handed to the
/// screen below, and a screen that comes to light again is told so. Keys are locked and unlocked by their request alone.
pub proof fn law_actions_do_one_thing(action: Action, p: Plan, locked: bool)
    requires
        is_plan(action, p),
    ensures
        action matches Action::Open(id) ==> p.open == Some(id) && p.draw,
        action matches Action::System(r) ==> p.request == Some(r) && p.draw && !p.resume,
        action matches Action::PopWith(r) ==> p.deliver == Some(r) && !p.draw && !p.resume,
        action is Pop || action is PopTo || action is ToReader ==> p.resume && p.draw,
        action is Push || action is Replace ==> p.draw && !p.resume && p.open is None && p.request is None && p.deliver is None,
        action is Nothing ==> !p.draw && !p.resume && p.open is None && p.request is None && p.deliver is None && p.mark is None,
        action is Redraw ==> p.draw && p.mark is None,
        locked_after(locked, Action::System(SysRequest::LockKeys(true))),
        !locked_after(locked, Action::System(SysRequest::LockKeys(false))),
        !(action is System) ==> locked_after(locked, action) == locked,
{
}

/// A sleep screen on top puts the reader to sleep, once; it is awake again as soon as none is on the stack. Things are
/// saved on a tick, half a minute after the last time and not sooner.
pub proof fn law_sleep_and_saving_settle(o: Ui, ev: Event, now: u32, a: After, n: Ui)
    requires
        settled(o, ev, now, a, n),
    ensures
        sleeps(o.top()) && o.stack().len() > 0 ==> n.asleep,
        a.sleep ==> sleeps(o.top()) && !o.asleep,
        o.asleep ==> !a.sleep,
        (forall|i: int| 0 <= i < o.stack().len() ==> !sleeps((#[trigger] o.stack()[i]).name)) && o.stack().len() > 0
            ==> !n.asleep,
        a.save <==> ev is Tick && now >= o.last_saved + 30,
        a.save ==> n.last_saved == now,
        !a.save ==> n.last_saved == o.last_saved,
{
    if sleeps(o.top()) && o.stack().len() > 0 {
        assert(sleeps(o.stack()[o.stack().len() - 1].name));
    }
}

/// While the reader sleeps its screen is drawn anew once a minute and not more: after a repaint, the rest of that minute
/// is still.
pub proof fn law_sleep_screen_changes_once_a_minute(holds: Option<Held>, now: u32, later: u32)
    requires
        now / 60 == later / 60,
    ensures
        holds is Some && holds->0 is Sleep ==> {
            let (_, then) = sleep_stepped(holds, now);
            sleep_stepped(then, later).0 == SleepStep::Still
        },
        holds matches Some(Held::Sleep(m, inverted)) ==> (m != now / 60 <==> sleep_stepped(holds, now).0
            == SleepStep::Repaint(inverted)),
        !(holds is Some && holds->0 is Sleep) ==> sleep_stepped(holds, now) == (SleepStep::Afresh, holds),
{
}

/// A page that was drawn alone is kept under what is laid over it as long as it has not changed, and drawn anew where it
/// has, or where light and dark were swapped.
pub proof fn law_page_is_kept_under_what_lies_over(alone: Ui, over: Ui, key: u64, other: u64, inverted: bool, now: u32)
    requires
        alone.stack().len() > 0,
        base_at(alone.stack()) + 1 == alone.stack().len(),
        alone.stack().last().name == "20-reading"@,
        over.frame_holds == alone.held_after(Some(key), inverted, now),
        over.stack().len() == alone.stack().len() + 1,
        base_at(over.stack()) == base_at(alone.stack()),
        over.stack()[base_at(over.stack())].name == "20-reading"@,
    ensures
        !alone.draw_plan(Some(key), inverted).reuse,
        over.draw_plan(Some(key), inverted).reuse,
        other != key ==> !over.draw_plan(Some(other), inverted).reuse,
        !over.draw_plan(Some(key), !inverted).reuse,
        drawn_as(true, Some(Refresh::Gc)) == Refresh::Du,
        drawn_as(false, Some(Refresh::Gc)) == Refresh::Gc,
{
}

/// Power pressed brings the sleep screen and Power held the power menu, from any screen that does not keep the keys for
/// itself; Back held brings Jump where it is not there yet. Every other key goes to the screen on top.
pub proof fn law_power_and_back_work_everywhere(ui: Ui, k: KeyEvent)
    requires
        !ui.locked,
        ui.top() != "40-sleep"@,
        ui.top() != "40-sleep-charging"@,
        ui.top() != "44-picker-preview"@,
        ui.top() != "41-power"@,
        ui.top() != "42-jump"@,
        ui.top() != "01-boot"@,
        ui.top() != "99-recovery"@,
    ensures
        k.key == Key::Power && k.kind == KeyKind::Press ==> ui.key_turn(k) == Turn::Act(
            Action::Push(ScreenAsk::Named("40-sleep")),
        ),
        k.key == Key::Power && k.kind == KeyKind::Long ==> ui.key_turn(k) == Turn::Act(
            Action::Push(ScreenAsk::Named("41-power")),
        ),
        k.key == Key::Back && k.kind == KeyKind::Long && (forall|i: int|
            0 <= i < ui.stack().len() ==> (#[trigger] ui.stack()[i]).name != "42-jump"@) ==> ui.key_turn(k) == Turn::Act(
            Action::Push(ScreenAsk::Named("42-jump")),
        ),
        !(k.key == Key::Power && (k.kind == KeyKind::Press || k.kind == KeyKind::Long)) && !(k.key == Key::Back && k.kind
            == KeyKind::Long) ==> ui.key_turn(k) == Turn::ToKey(k),
{
}

/// Holding Power unlocks the keys, and any other key shows the strip that says they are locked.
pub proof fn law_locked_keys_show_the_strip(ui: Ui, k: KeyEvent)
    requires
        ui.locked,
        ui.top() != "45-locked"@,
        !ui.owns_keys(),
    ensures
        k.key == Key::Power && k.kind == KeyKind::Long ==> ui.key_turn(k) == Turn::AskAndAct(
            SysRequest::LockKeys(false),
            Action::System(SysRequest::LockKeys(false)),
        ),
        !(k.key == Key::Power && k.kind == KeyKind::Long) ==> ui.key_turn(k) == Turn::Act(
            Action::Push(ScreenAsk::Named("45-locked")),
        ),
{
}

/// A key typed on a phone goes to the screen on top even where the keys are locked; other events go to it too, but for
/// the ticks of a sleeping reader.
pub proof fn law_events_go_to_the_screen_on_top(ui: Ui, ev: Event)
    requires
        ui.stack().len() > 0,
    ensures
        ev matches Event::PhoneKey(k) ==> ui.turn(ev) == Turn::ToKey(k),
        ev is Tick && ui.asleep && sleeps(ui.top()) ==> ui.turn(ev) == Turn::SleepTick,
        ev is Tick && !(ui.asleep && sleeps(ui.top())) ==> ui.turn(ev) == Turn::ToEvent,
        !(ev is Tick) && !(ev is Key) && !(ev is PhoneKey) ==> ui.turn(ev) == Turn::ToEvent,
        ev matches Event::Key(k) ==> ui.turn(ev) == ui.key_turn(k),
{
}

/// Going back to a screen that is on the stack ends with that screen on top and what was under it unchanged; where it is
/// not there, only the root is left.
pub proof fn law_going_back_to_a_screen(st: Seq<PageView>, name: Seq<char>, i: int)
    requires
        0 <= i < st.len(),
        st[i].name == name,
        forall|j: int| i < j < st.len() ==> (#[trigger] st[j]).name != name,
    ensures
        popped_to(st, name) == st.take(i + 1),
        popped_to(st, name).last().name == name,
    decreases st.len(),
{
    if i + 1 < st.len() {
        assert(st[st.len() - 1].name != name);
        assert forall|j: int| i < j < st.drop_last().len() implies (#[trigger] st.drop_last()[j]).name != name by {
            assert(st[j].name != name);
        }
        law_going_back_to_a_screen(st.drop_last(), name, i);
        assert(st.drop_last().take(i + 1) =~= st.take(i + 1));
    } else {
        assert(st.take(i + 1) =~= st);
    }
}

/// Replacing a screen is leaving it and bringing the other; opening a book leaves its page alone on the stack, and so
/// does going to the reader.
pub proof fn law_replacing_is_leaving_and_bringing(st: Seq<PageView>, ask: ScreenAsk, opens: NewScreen, id: u64, book: BookId)
    ensures
        stacked(st, Action::Replace(ask), opens, id) == stacked(stacked(st, Action::Pop, opens, id), Action::Push(ask), opens, id),
        stacked(st, Action::Open(book), opens, id).len() == 1,
        stacked(st, Action::Open(book), opens, id)[0].name == "20-reading"@,
        stacked(st, Action::ToReader, opens, id).len() == 1,
        stacked(st, Action::ToReader, opens, id)[0].name == "20-reading"@,
        st.len() > 1 ==> stacked(st, Action::Pop, opens, id) == st.take(st.len() - 1),
        st.len() == 1 ==> stacked(st, Action::Pop, opens, id) == st,
        stacked(st, Action::Nothing, opens, id) == st && stacked(st, Action::Redraw, opens, id) == st,
{
}

/// The progress of a book that is taken in is kept under that book alone and goes away when it is done; where it failed,
/// the book says so and why.
pub proof fn law_progress_is_noted(o: Ui, n: Ui, id: BookId, done: u32, total: u32, finished: Option<Result<(), String>>)
    requires
        noted(o, n, Event::Ingest { id, done, total, finished }),
    ensures
        finished is None ==> n.ingesting@.contains((id, done, total)),
        finished is Some ==> forall|k: int| 0 <= k < n.ingesting@.len() ==> (#[trigger] n.ingesting@[k]).0 != id,
        finished matches Some(Err(msg)) ==> (spot(o.lib.books@, id) matches Some(i) ==> n.lib.books@.len() == o.lib.books@.len()
            && n.lib.dirty),
        !(finished matches Some(Err(_))) ==> n.lib == o.lib,
{
    let rest = o.ingesting@.filter(|e: (BookId, u32, u32)| e.0 != id);
    if finished is None {
        assert(n.ingesting@[n.ingesting@.len() - 1] == (id, done, total));
    } else {
        assert forall|k: int| 0 <= k < n.ingesting@.len() implies (#[trigger] n.ingesting@[k]).0 != id by {
            o.ingesting@.lemma_filter_pred(|e: (BookId, u32, u32)| e.0 != id, k);
        }
    }
}

/// A frame is refreshed in full where another page came up, and as it was drawn where none did; what was not drawn is
/// not refreshed.
pub proof fn law_same_page_is_refreshed_as_drawn(st: Seq<PageView>, marks: Seq<BaseId>, drawn: Refresh)
    ensures
        refreshed(marks, st, Refresh::Nothing) == Refresh::Nothing,
        (forall|i: int| 0 <= i < marks.len() ==> #[trigger] marks[i] == base_of(st)) ==> refreshed(marks, st, drawn) == drawn,
        drawn != Refresh::Nothing && (exists|i: int| 0 <= i < marks.len() && #[trigger] marks[i] != base_of(st)) ==> refreshed(
            marks,
            st,
            drawn,
        ) == Refresh::Gc,
{
}

/// The screen that the reader starts with.
pub open spec fn first_screen(first_run_done: bool) -> Seq<char> {
    if first_run_done {
        "20-reading"@
    } else {
        "02-firstrun-language"@
    }
}

/// The current book once one was to be opened.
pub open spec fn current_after(current: Option<BookId>, id: BookId, opened: bool) -> Option<BookId> {
    if opened {
        Some(id)
    } else {
        current
    }
}

/// The reader starts with the wizard until that was gone through, and with the page of the book from then on; a book
/// that could not be opened leaves the current one as it is.
pub proof fn law_reader_starts_on_the_page(current: Option<BookId>, id: BookId)
    ensures
        first_screen(true) == "20-reading"@,
        first_screen(false) == "02-firstrun-language"@,
        current_after(current, id, true) == Some(id),
        current_after(current, id, false) == current,
{
}

/// No more than eight screens are kept, and the newest is always one of them.
pub proof fn law_eight_screens_are_kept(st: Seq<PageView>, ask: ScreenAsk, opens: NewScreen, id: u64)
    requires
        0 < st.len() <= 8,
    ensures
        stacked(st, Action::Push(ask), opens, id).len() <= 8,
        st.len() < 8 ==> stacked(st, Action::Push(ask), opens, id).len() == st.len() + 1,
        stacked(st, Action::Push(ask), opens, id).last().name == opens.name@,
        stacked(st, Action::Push(ask), opens, id).last().overlay == opens.overlay,
        stacked(st, Action::Push(ask), opens, id)[0] == st[0],
{
    lemma_room(st);
}

/// A book that could not be taken in is marked so, with the reason, and nothing else of it changes; no other book does.
pub proof fn law_failed_books_say_why(o: Ui, n: Ui, id: BookId, done: u32, total: u32, msg: String, j: int)
    requires
        noted(o, n, Event::Ingest { id, done, total, finished: Some(Err(msg)) }),
        spot(o.lib.books@, id) is Some,
        0 <= spot(o.lib.books@, id)->0 < o.lib.books@.len(),
        0 <= j < o.lib.books@.len(),
    ensures
        ({
            let i = spot(o.lib.books@, id)->0;
            let b = n.lib.books@[i];
            &&& b.ingest == IngestState::Failed
            &&& b.error matches Some(e) && e@ == msg@
            &&& b.title == o.lib.books@[i].title && b.path == o.lib.books@[i].path && b.loc == o.lib.books@[i].loc
            &&& j != i ==> n.lib.books@[j] == o.lib.books@[j]
        }),
{
}

/// What a frame holds once it was drawn: the page of a book by its key, a sleep screen by its minute, and anything else
/// not at all.
pub proof fn law_frames_hold_pages_and_sleep(ui: Ui, key: u64, inverted: bool, now: u32)
    requires
        ui.stack().len() > 0,
        base_at(ui.stack()) + 1 == ui.stack().len(),
    ensures
        ui.stack().last().name == "20-reading"@ ==> ui.held_after(Some(key), inverted, now) == Some(Held::Page(key, inverted)),
        ui.stack().last().name == "40-sleep"@ ==> ui.held_after(None, inverted, now) == Some(Held::Sleep(now / 60, inverted)),
        !sleeps(ui.stack().last().name) && ui.stack().last().name != "20-reading"@ ==> ui.held_after(Some(key), inverted, now) is None,
{
}

/// The screens of sleep are those two, with and without a charger.
pub proof fn law_sleep_has_two_screens(name: Seq<char>)
    ensures
        sleeps(name) <==> name == "40-sleep"@ || name == "40-sleep-charging"@,
{
}

} // verus!
