//! First run: language, time, "This is your reader", add books; and the time picker.
use vstd::prelude::*;

use crate::index::{BookEntry, BookId, Library};
use crate::input::{Key, KeyEvent, KeyKind};
use crate::platform::{Action, Result_, ScreenAsk};
use crate::text;

verus! {

/// A one-line "sample book" title used when nothing else is present.
pub const SAMPLE_TITLE: &'static str = "Quire · a short guide";

/// The first-run wizard.
#[derive(Clone, Copy, Debug, PartialEq, Eq, Structural)]
pub struct FirstRun {
    /// Page, 0 to 3.
    pub page: usize,
    /// Focused language.
    pub focus: usize,
}

/// The settings that the wizard makes.
#[derive(Clone, Debug, PartialEq, Eq)]
pub struct Choices {
    /// Language code.
    pub language: String,
    /// The Bookshop's language code.
    pub bookshop_language: String,
    /// Whether the wizard is done.
    pub first_run_done: bool,
}

/// The code of language `i`.
pub open spec fn lang_code(i: int) -> Seq<char> {
    if i == 0 {
        "en"@
    } else if i == 1 {
        "de"@
    } else if i == 2 {
        "fr"@
    } else {
        "es"@
    }
}

/// The name of language `i`, in itself.
pub open spec fn lang_name(i: int) -> Seq<char> {
    if i == 0 {
        "English"@
    } else if i == 1 {
        "Deutsch"@
    } else if i == 2 {
        "Français"@
    } else {
        "Español"@
    }
}

pub(crate) fn code_of(i: usize) -> (r: &'static str)
    ensures
        r@ == lang_code(i as int),
{
    match i {
        0 => "en",
        1 => "de",
        2 => "fr",
        _ => "es",
    }
}

pub(crate) fn name_of(i: usize) -> (r: &'static str)
    ensures
        r@ == lang_name(i as int),
{
    match i {
        0 => "English",
        1 => "Deutsch",
        2 => "Français",
        _ => "Español",
    }
}

/// The book to start with: the current one, or the first of the shelf.
pub open spec fn starts_with_book(lib: Library, first: Option<BookId>) -> Option<BookId> {
    if lib.current is Some {
        lib.current
    } else {
        first
    }
}

/// Whether `first` is the first book of the shelf, if there is one.
pub open spec fn is_first_of_shelf(lib: Library, first: Option<BookId>) -> bool {
    exists|shelf: Seq<BookEntry>| #[trigger]
        crate::index::is_shelf(lib, shelf) && first == if shelf.len() > 0 {
            Some(shelf[0].id)
        } else {
            None
        }
}

/// What finishing the wizard leads to: the book to start with, or the empty reading page.
pub open spec fn finish_action(start: Option<BookId>) -> Action {
    match start {
        Some(id) => Action::Open(id),
        None => Action::ToReader,
    }
}

impl FirstRun {
    /// Whether page and focus are ones there are.
    pub open spec fn wf(self) -> bool {
        self.page < 4 && self.focus < 4
    }

    /// The wizard after a short press of a key.
    pub open spec fn pressed(self, key: Key) -> FirstRun {
        if self.page == 0 && key == Key::Up {
            FirstRun { focus: (if self.focus == 0 { 3 } else { self.focus - 1 }) as usize, ..self }
        } else if self.page == 0 && key == Key::Down {
            FirstRun { focus: (if self.focus == 3 { 0 } else { self.focus + 1 }) as usize, ..self }
        } else if self.page == 0 && key == Key::Confirm {
            FirstRun { page: 1, ..self }
        } else if self.page > 0 && (key == Key::Back || key == Key::Left) {
            FirstRun { page: (self.page - 1) as usize, ..self }
        } else if self.page < 3 && key == Key::Right {
            FirstRun { page: (self.page + 1) as usize, ..self }
        } else {
            self
        }
    }

    /// Whether a key finishes the wizard: any of those that leave its last page forwards.
    pub open spec fn finishes(self, ev: KeyEvent) -> bool {
        ev.kind == KeyKind::Press && self.page == 3 && (ev.key == Key::Right || ev.key == Key::Confirm || ev.key == Key::Up
            || ev.key == Key::Down)
    }

    /// What a key leads to; `start` is the book to start with.
    pub open spec fn leads_to(self, ev: KeyEvent, start: Option<BookId>) -> Action {
        let key = ev.key;
        if ev.kind != KeyKind::Press || key == Key::Power {
            Action::Nothing
        } else if self.finishes(ev) {
            if key == Key::Right {
                finish_action(start)
            } else if key == Key::Up {
                Action::Push(ScreenAsk::Named("30-drop"))
            } else {
                Action::Push(ScreenAsk::Named("35-bookshop"))
            }
        } else if self.page == 1 && key == Key::Confirm {
            Action::Push(ScreenAsk::Named("02-time-picker"))
        } else if self.pressed(key) != self || (self.page == 0 && key == Key::Confirm) {
            Action::Redraw
        } else {
            Action::Nothing
        }
    }

    /// New.
    pub fn new() -> (r: Self)
        ensures
            r == (FirstRun { page: 0, focus: 0 }),
    {
        FirstRun { page: 0, focus: 0 }
    }

    /// Stable name of the page shown.
    pub fn name(&self) -> (r: &'static str)
        ensures
            r@ == if self.page == 0 {
                "02-firstrun-language"@
            } else if self.page == 1 {
                "02-firstrun-time"@
            } else if self.page == 2 {
                "02-firstrun-reader"@
            } else {
                "02-firstrun-books"@
            },
    {
        match self.page {
            0 => "02-firstrun-language",
            1 => "02-firstrun-time",
            2 => "02-firstrun-reader",
            _ => "02-firstrun-books",
        }
    }

    /// Handle a key. The choices are to be saved when the wizard is done.
    pub fn key(&mut self, ev: KeyEvent, choices: &mut Choices, lib: &Library) -> (r: Action)
        requires
            old(self).wf(),
        ensures
            chosen(*old(self), ev, *old(choices), *final(choices)),
            final(self).wf(),
            *final(self) == if ev.kind == KeyKind::Press {
                old(self).pressed(ev.key)
            } else {
                *old(self)
            },
            exists|first: Option<BookId>| #[trigger]
                is_first_of_shelf(*lib, first) && r == old(self).leads_to(ev, starts_with_book(*lib, first)),
            final(choices).first_run_done == (old(choices).first_run_done || old(self).finishes(ev)),
            ev.kind == KeyKind::Press && old(self).page == 0 && ev.key == Key::Confirm ==> final(choices).language@
                == lang_code(old(self).focus as int) && final(choices).bookshop_language@ == lang_code(
                old(self).focus as int,
            ),
            !(ev.kind == KeyKind::Press && old(self).page == 0 && ev.key == Key::Confirm) ==> final(choices).language
                == old(choices).language && final(choices).bookshop_language == old(choices).bookshop_language,
    {
        let start = start_book(lib);
        let ghost first = choose|first: Option<BookId>| #[trigger]
            is_first_of_shelf(*lib, first) && start == starts_with_book(*lib, first);
        assert(is_first_of_shelf(*lib, first));
        if ev.kind != KeyKind::Press {
            return Action::Nothing;
        }
        match ev.key {
            Key::Up => {
                if self.page == 0 {
                    self.focus = if self.focus == 0 { 3 } else { self.focus - 1 };
                    return Action::Redraw;
                }
                if self.page == 3 {
                    choices.first_run_done = true;
                    return Action::Push(ScreenAsk::Named("30-drop"));
                }
                Action::Nothing
            },
            Key::Down => {
                if self.page == 0 {
                    self.focus = if self.focus == 3 { 0 } else { self.focus + 1 };
                    return Action::Redraw;
                }
                if self.page == 3 {
                    choices.first_run_done = true;
                    return Action::Push(ScreenAsk::Named("35-bookshop"));
                }
                Action::Nothing
            },
            Key::Confirm => {
                if self.page == 0 {
                    choices.language = text::owned(code_of(self.focus));
                    choices.bookshop_language = text::owned(code_of(self.focus));
                    self.page = 1;
                    return Action::Redraw;
                }
                if self.page == 1 {
                    return Action::Push(ScreenAsk::Named("02-time-picker"));
                }
                if self.page == 3 {
                    choices.first_run_done = true;
                    return Action::Push(ScreenAsk::Named("35-bookshop"));
                }
                Action::Nothing
            },
            Key::Back | Key::Left => {
                if self.page > 0 {
                    self.page = self.page - 1;
                    return Action::Redraw;
                }
                Action::Nothing
            },
            Key::Right => {
                if self.page < 3 {
                    self.page = self.page + 1;
                    return Action::Redraw;
                }
                choices.first_run_done = true;
                match start {
                    Some(id) => Action::Open(id),
                    None => Action::ToReader,
                }
            },
            Key::Power => Action::Nothing,
        }
    }
}

impl Default for FirstRun {
    fn default() -> (r: Self)
        ensures
            r == (FirstRun { page: 0, focus: 0 }),
    {
        FirstRun::new()
    }
}

fn start_book(lib: &Library) -> (r: Option<BookId>)
    ensures
        exists|first: Option<BookId>| #[trigger] is_first_of_shelf(*lib, first) && r == starts_with_book(*lib, first),
{
    let shelf = lib.shelf();
    let first: Option<BookId> = if shelf.len() > 0 { Some(shelf[0].id) } else { None };
    proof {
        assert(crate::index::is_shelf(*lib, crate::index::entries(shelf@)));
        if shelf@.len() > 0 {
            assert(crate::index::entries(shelf@)[0] == *shelf@[0]);
        }
        assert(is_first_of_shelf(*lib, first));
    }
    if lib.current.is_some() {
        lib.current
    } else {
        first
    }
}

/// Going back undoes going on: Left or Back after Right shows the same page again.
pub proof fn law_back_undoes_right(w: FirstRun)
    requires
        w.wf(),
        w.page < 3,
    ensures
        w.pressed(Key::Right).pressed(Key::Back) == w,
        w.pressed(Key::Right).pressed(Key::Left) == w,
{
}

/// The languages go round: Down and Up undo each other.
pub proof fn law_languages_go_round(w: FirstRun)
    requires
        w.wf(),
        w.page == 0,
    ensures
        w.pressed(Key::Down).pressed(Key::Up) == w,
        w.pressed(Key::Up).pressed(Key::Down) == w,
{
}

/// The wizard is left only from its last page: from any other, no key opens a book, the Bookshop or the
/// Drop page.
pub proof fn law_wizard_ends_on_its_last_page(w: FirstRun, ev: KeyEvent, start: Option<BookId>)
    requires
        w.wf(),
        w.page < 3,
    ensures
        !w.finishes(ev),
        w.leads_to(ev, start) == Action::Nothing || w.leads_to(ev, start) == Action::Redraw || w.leads_to(ev, start)
            == Action::Push(ScreenAsk::Named("02-time-picker")),
{
}

/// The wizard at its first page, boxed.
pub fn boxed() -> (r: Box<FirstRun>)
    ensures
        *r == (FirstRun { page: 0, focus: 0 }),
{
    Box::new(FirstRun::new())
}

/// Seconds in a day.
pub const DAY: u32 = 86_400;

/// A date and time picker with steppers.
#[derive(Clone, Copy, Debug, PartialEq, Eq, Structural)]
pub struct TimePicker {
    /// Year.
    pub year: i32,
    /// Month, 1 to 12.
    pub month: i32,
    /// Day of the month.
    pub day: i32,
    /// Hour.
    pub hour: i32,
    /// Minute.
    pub minute: i32,
    /// Focused field.
    pub focus: usize,
}

/// What a key does in the time picker.
#[derive(Clone, Debug, PartialEq, Eq)]
pub struct PickerKey {
    /// The screen's action.
    pub action: Action,
    /// Set the clock to this first.
    pub set_time: Option<u32>,
}

impl TimePicker {
    /// Whether a field is focused, and the fields are ones that a clock can give.
    pub open spec fn wf(self) -> bool {
        &&& self.focus < 5
        &&& 0 <= self.year <= u16::MAX
        &&& 0 <= self.month <= u8::MAX
        &&& 0 <= self.day <= u8::MAX
        &&& 0 <= self.hour <= u8::MAX
        &&& 0 <= self.minute <= u8::MAX
    }

    /// Field `i`.
    pub open spec fn field(self, i: int) -> int {
        if i == 0 {
            self.year as int
        } else if i == 1 {
            self.month as int
        } else if i == 2 {
            self.day as int
        } else if i == 3 {
            self.hour as int
        } else {
            self.minute as int
        }
    }

    /// The picker with field `i` set.
    pub open spec fn with_field(self, i: int, v: int) -> TimePicker {
        if i == 0 {
            TimePicker { year: v as i32, ..self }
        } else if i == 1 {
            TimePicker { month: v as i32, ..self }
        } else if i == 2 {
            TimePicker { day: v as i32, ..self }
        } else if i == 3 {
            TimePicker { hour: v as i32, ..self }
        } else {
            TimePicker { minute: v as i32, ..self }
        }
    }

    /// New, at the current time: the year, month and day of the date, the hour and the minute.
    pub fn new(year: u16, month: u8, day: u8, hour: u8, minute: u8) -> (r: Self)
        ensures
            r.wf(),
            r == (TimePicker {
                year: year as i32,
                month: month as i32,
                day: day as i32,
                hour: hour as i32,
                minute: minute as i32,
                focus: 3,
            }),
    {
        TimePicker {
            year: year as i32,
            month: month as i32,
            day: day as i32,
            hour: hour as i32,
            minute: minute as i32,
            focus: 3,
        }
    }

    /// The seconds the fields stand for, with `day` the day number of their date.
    pub open spec fn seconds(self, day: u16) -> int {
        day * DAY + self.hour * 3600 + self.minute * 60
    }

    /// The seconds the fields stand for, with `day` the day number of their date.
    pub fn ts(&self, day: u16) -> (r: u32)
        requires
            self.wf(),
            self.seconds(day) <= u32::MAX,
        ensures
            r == self.seconds(day),
    {
        day as u32 * DAY + self.hour as u32 * 3600 + self.minute as u32 * 60
    }

    /// The lowest and highest value of the focused field.
    pub open spec fn range(self, days: int) -> (int, int) {
        if self.focus == 0 {
            (2024, 2099)
        } else if self.focus == 1 {
            (1, 12)
        } else if self.focus == 2 {
            (1, days)
        } else if self.focus == 3 {
            (0, 23)
        } else {
            (0, 59)
        }
    }

    /// The focused field one step on or back, round at the ends of its range.
    pub open spec fn stepped(self, back: bool, days: int) -> TimePicker {
        let (lo, hi) = self.range(days);
        let v = self.field(self.focus as int) + (if back { -1int } else { 1 });
        self.with_field(self.focus as int, if v < lo { hi } else if v > hi { lo } else { v })
    }

    /// The picker after a key that is not a release.
    pub open spec fn keyed(self, key: Key, days: int) -> TimePicker {
        match key {
            Key::Up => TimePicker { focus: ((self.focus + 4) % 5) as usize, ..self },
            Key::Down => TimePicker { focus: ((self.focus + 1) % 5) as usize, ..self },
            Key::Left => self.stepped(true, days),
            Key::Right => self.stepped(false, days),
            _ => self,
        }
    }

    fn get(&self, i: usize) -> (r: i32)
        ensures
            r == self.field(i as int),
    {
        match i {
            0 => self.year,
            1 => self.month,
            2 => self.day,
            3 => self.hour,
            _ => self.minute,
        }
    }

    fn set(&mut self, i: usize, v: i32)
        ensures
            *final(self) == old(self).with_field(i as int, v as int),
    {
        match i {
            0 => {
                self.year = v;
            },
            1 => {
                self.month = v;
            },
            2 => {
                self.day = v;
            },
            3 => {
                self.hour = v;
            },
            _ => {
                self.minute = v;
            },
        }
    }

    /// Handle a key. `days` is how many days the month has, `day` the day number of the date.
    pub fn key(&mut self, ev: KeyEvent, days: u8, day: u16) -> (r: PickerKey)
        requires
            old(self).wf(),
            1 <= days <= 31,
            ev.kind != KeyKind::Release && ev.key == Key::Confirm ==> old(self).seconds(day) <= u32::MAX,
        ensures
            r == old(self).picked(ev, day),
            final(self).wf(),
            *final(self) == if ev.kind == KeyKind::Release {
                *old(self)
            } else {
                old(self).keyed(ev.key, days as int)
            },
            r.set_time == if ev.kind != KeyKind::Release && ev.key == Key::Confirm {
                Some(old(self).seconds(day) as u32)
            } else {
                None
            },
            r.action == if ev.kind == KeyKind::Release {
                Action::Nothing
            } else {
                match ev.key {
                    Key::Back => Action::PopWith(Result_::Cancel),
                    Key::Confirm => Action::PopWith(Result_::Choice(0)),
                    Key::Power => Action::Nothing,
                    _ => Action::Redraw,
                }
            },
    {
        if ev.kind == KeyKind::Release {
            return PickerKey { action: Action::Nothing, set_time: None };
        }
        let action = match ev.key {
            Key::Back => Action::PopWith(Result_::Cancel),
            Key::Up => {
                self.focus = (self.focus + 4) % 5;
                Action::Redraw
            },
            Key::Down => {
                self.focus = (self.focus + 1) % 5;
                Action::Redraw
            },
            Key::Left | Key::Right => {
                let d: i32 = if ev.key == Key::Left { -1 } else { 1 };
                let (lo, hi): (i32, i32) = match self.focus {
                    0 => (2024, 2099),
                    1 => (1, 12),
                    2 => (1, days as i32),
                    3 => (0, 23),
                    _ => (0, 59),
                };
                let v: i32 = self.get(self.focus) + d;
                self.set(self.focus, if v < lo { hi } else if v > hi { lo } else { v });
                Action::Redraw
            },
            Key::Confirm => {
                let ts: u32 = self.ts(day);
                return PickerKey { action: Action::PopWith(Result_::Choice(0)), set_time: Some(ts) };
            },
            Key::Power => Action::Nothing,
        };
        PickerKey { action, set_time: None }
    }
}

/// Confirming at once sets the clock to what it shows, cut to the minute: a picker made at `now`, whose
/// day number is `now / DAY`, stands for the start of the minute.
pub proof fn law_confirming_at_once_keeps_the_minute(p: TimePicker, now: u32)
    requires
        p.hour == now % DAY / 3600,
        p.minute == now % DAY / 60 % 60,
    ensures
        p.seconds((now / DAY) as u16) == now - now % 60,
{
    let d = now as int / 86_400;
    let t = now as int % 86_400;
    assert(now == d * 86_400 + t);
    assert(d <= 49_710);
    assert(t == t / 3600 * 3600 + t % 3600);
    assert(t / 60 == t / 3600 * 60 + t / 60 % 60) by (nonlinear_arith)
        requires
            0 <= t < 86_400,
    ;
    assert(now as int % 60 == t % 60);
}

/// A step always ends inside the field's range, whatever the field held before.
pub proof fn law_steps_stay_in_range(p: TimePicker, back: bool, days: int)
    requires
        p.wf(),
        1 <= days <= 31,
    ensures
        p.range(days).0 <= p.stepped(back, days).field(p.focus as int) <= p.range(days).1,
{
}

/// A step on and a step back undo each other, round the ends too.
pub proof fn law_steps_undo_each_other(p: TimePicker, days: int)
    requires
        p.wf(),
        1 <= days <= 31,
        p.range(days).0 <= p.field(p.focus as int) <= p.range(days).1,
    ensures
        p.stepped(false, days).stepped(true, days) == p,
        p.stepped(true, days).stepped(false, days) == p,
{
}

/// What the keys of the last page lead to: Right starts with the book there is, or with the reader where there is none;
/// Up goes to the Drop page, and Down and Confirm to the Bookshop.
pub proof fn law_last_page_leads_on(w: FirstRun, start: Option<BookId>)
    requires
        w.wf(),
        w.page == 3,
    ensures
        ({
            let press = |key: Key| KeyEvent { key, kind: KeyKind::Press };
            &&& start matches Some(id) ==> w.leads_to(press(Key::Right), start) == Action::Open(id)
            &&& start is None ==> w.leads_to(press(Key::Right), start) == Action::ToReader
            &&& w.leads_to(press(Key::Up), start) == Action::Push(ScreenAsk::Named("30-drop"))
            &&& w.leads_to(press(Key::Down), start) == Action::Push(ScreenAsk::Named("35-bookshop"))
            &&& w.leads_to(press(Key::Confirm), start) == Action::Push(ScreenAsk::Named("35-bookshop"))
            &&& w.finishes(press(Key::Right)) && w.finishes(press(Key::Up)) && w.finishes(press(Key::Down)) && w.finishes(
                press(Key::Confirm),
            )
            &&& !w.finishes(press(Key::Back)) && !w.finishes(press(Key::Left)) && !w.finishes(press(Key::Power))
        }),
{
}

/// The wizard starts with the current book, or with the first of the shelf where none is current.
pub proof fn law_wizard_starts_with_the_current_book(lib: Library, first: Option<BookId>)
    ensures
        lib.current is Some ==> starts_with_book(lib, first) == lib.current,
        lib.current is None ==> starts_with_book(lib, first) == first,
{
}

/// Each language has a code of its own, two letters by which books are hyphenated, and a name of its own.
pub proof fn law_languages_have_their_codes(i: int, j: int)
    requires
        0 <= i < 4,
        0 <= j < 4,
    ensures
        lang_code(i) == lang_code(j) ==> i == j,
        lang_name(i) == lang_name(j) ==> i == j,
        lang_name(i) == "English"@ ==> lang_code(i) == "en"@,
        lang_name(i) == "Deutsch"@ ==> lang_code(i) == "de"@,
        lang_name(i) == "Français"@ ==> lang_code(i) == "fr"@,
        lang_name(i) == "Español"@ ==> lang_code(i) == "es"@,
        lang_name(0) == "English"@ && lang_name(1) == "Deutsch"@ && lang_name(2) == "Français"@ && lang_name(3) == "Español"@,
{
    reveal_strlit("en");
    reveal_strlit("de");
    reveal_strlit("fr");
    reveal_strlit("es");
    reveal_strlit("English");
    reveal_strlit("Deutsch");
    reveal_strlit("Français");
    reveal_strlit("Español");
    assert("en"@[0] == 'e' && "en"@[1] == 'n' && "de"@[0] == 'd' && "fr"@[0] == 'f' && "es"@[0] == 'e' && "es"@[1] == 's');
    assert("English"@.len() == 7 && "English"@[0] == 'E' && "English"@[1] == 'n');
    assert("Deutsch"@[0] == 'D' && "Français"@[0] == 'F' && "Español"@[0] == 'E' && "Español"@[1] == 's');
}

/// Confirm takes the language on show and goes on; on the second page it brings the clock.
pub proof fn law_confirm_goes_on(w: FirstRun, start: Option<BookId>)
    requires
        w.wf(),
    ensures
        w.page == 0 ==> w.pressed(Key::Confirm) == (FirstRun { page: 1, focus: w.focus }),
        w.page == 1 ==> w.leads_to(KeyEvent { key: Key::Confirm, kind: KeyKind::Press }, start) == Action::Push(
            ScreenAsk::Named("02-time-picker"),
        ) && w.pressed(Key::Confirm) == w,
        w.page < 3 ==> w.pressed(Key::Right) == (FirstRun { page: (w.page + 1) as usize, focus: w.focus }),
        w.page == 0 && w.focus < 3 ==> w.pressed(Key::Down).focus == w.focus + 1,
        w.page == 0 && w.focus > 0 ==> w.pressed(Key::Up).focus == w.focus - 1,
        w.page == 0 ==> w.pressed(Key::Back) == w,
{
}

/// The fields of the clock go round as a clock and a calendar do: after the last hour comes the first, and so with
/// minutes, months and the days of the month; a step changes its own field by one and no other.
pub proof fn law_clock_goes_round(p: TimePicker, days: int, other: int)
    requires
        p.wf(),
        1 <= days <= 31,
        0 <= other < 5,
    ensures
        p.focus == 0 && p.year == 2099 ==> p.stepped(false, days).year == 2024,
        p.focus == 0 && 2024 <= p.year < 2099 ==> p.stepped(false, days).year == p.year + 1,
        p.focus == 1 && p.month == 12 ==> p.stepped(false, days).month == 1,
        p.focus == 1 && 1 <= p.month < 12 ==> p.stepped(false, days).month == p.month + 1,
        p.focus == 2 && p.day == days ==> p.stepped(false, days).day == 1,
        p.focus == 2 && 1 <= p.day < days ==> p.stepped(false, days).day == p.day + 1,
        p.focus == 3 && p.hour == 23 ==> p.stepped(false, days).hour == 0,
        p.focus == 3 && p.hour < 23 ==> p.stepped(false, days).hour == p.hour + 1,
        p.focus == 3 && p.hour == 0 ==> p.stepped(true, days).hour == 23,
        p.focus == 4 && p.minute == 59 ==> p.stepped(false, days).minute == 0,
        p.focus == 4 && p.minute < 59 ==> p.stepped(false, days).minute == p.minute + 1,
        p.focus == 4 && p.minute == 0 ==> p.stepped(true, days).minute == 59,
        other != p.focus ==> p.stepped(false, days).field(other) == p.field(other) && p.stepped(true, days).field(other)
            == p.field(other),
        p.stepped(false, days).focus == p.focus,
{
}

/// Down goes to the next field and Up to the one before, round the ends; Right steps on and Left steps back.
pub proof fn law_picker_keys(p: TimePicker, days: int)
    requires
        p.wf(),
    ensures
        p.keyed(Key::Down, days).focus == if p.focus < 4 {
            p.focus + 1
        } else {
            0
        },
        p.keyed(Key::Up, days).focus == if p.focus > 0 {
            p.focus - 1
        } else {
            4
        },
        p.keyed(Key::Down, days).keyed(Key::Up, days) == p,
        p.keyed(Key::Right, days) == p.stepped(false, days),
        p.keyed(Key::Left, days) == p.stepped(true, days),
{
}

/// A later hour or minute is a later time, by as many seconds.
pub proof fn law_time_grows_with_the_clock(p: TimePicker, day: u16)
    ensures
        (TimePicker { minute: (p.minute + 1) as i32, ..p }).seconds(day) - p.seconds(day) == 60 || p.minute == i32::MAX,
        (TimePicker { hour: (p.hour + 1) as i32, ..p }).seconds(day) - p.seconds(day) == 3600 || p.hour == i32::MAX,
        day < u16::MAX ==> p.seconds((day + 1) as u16) - p.seconds(day) == 86_400,
{
}

/// Whether these are the choices after a key.
pub open spec fn chosen(w: FirstRun, ev: KeyEvent, before: Choices, after: Choices) -> bool {
    let takes = ev.kind == KeyKind::Press && w.page == 0 && ev.key == Key::Confirm;
    &&& after.first_run_done == (before.first_run_done || w.finishes(ev))
    &&& takes ==> after.language@ == lang_code(w.focus as int) && after.bookshop_language@ == lang_code(w.focus as int)
    &&& !takes ==> after.language == before.language && after.bookshop_language == before.bookshop_language
}

/// Confirming a language on the first page sets it for the reader and for the Bookshop; no other key changes it. The
/// wizard is over once it was left from its last page, and stays so.
pub proof fn law_language_on_show_is_taken(w: FirstRun, ev: KeyEvent, before: Choices, after: Choices)
    requires
        w.wf(),
        chosen(w, ev, before, after),
    ensures
        w.page == 0 && ev.key == Key::Confirm && ev.kind == KeyKind::Press && w.focus == 0 ==> after.language@ == "en"@ && after.bookshop_language@
            == "en"@,
        w.page == 0 && ev.key == Key::Confirm && ev.kind == KeyKind::Press && w.focus == 1 ==> after.language@ == "de"@ && after.bookshop_language@
            == "de"@,
        w.page == 0 && ev.key == Key::Confirm && ev.kind == KeyKind::Press && w.focus == 2 ==> after.language@ == "fr"@,
        w.page == 0 && ev.key == Key::Confirm && ev.kind == KeyKind::Press && w.focus == 3 ==> after.language@ == "es"@,
        w.page != 0 || ev.key != Key::Confirm || ev.kind != KeyKind::Press ==> after.language@ == before.language@,
        before.first_run_done ==> after.first_run_done,
        after.first_run_done && !before.first_run_done ==> w.page == 3 && ev.kind == KeyKind::Press,
        w.page == 3 && ev.key == Key::Right && ev.kind == KeyKind::Press ==> after.first_run_done,
{
}

impl TimePicker {
    /// What comes of a key while the clock is set.
    pub open spec fn picked(self, ev: KeyEvent, day: u16) -> PickerKey {
        PickerKey {
            action: if ev.kind == KeyKind::Release {
                Action::Nothing
            } else {
                match ev.key {
                    Key::Back => Action::PopWith(Result_::Cancel),
                    Key::Confirm => Action::PopWith(Result_::Choice(0)),
                    Key::Power => Action::Nothing,
                    _ => Action::Redraw,
                }
            },
            set_time: if ev.kind != KeyKind::Release && ev.key == Key::Confirm {
                Some(self.seconds(day) as u32)
            } else {
                None
            },
        }
    }
}

/// The clock is set by Confirm alone, to the time on show, and left alone by Back.
pub proof fn law_confirm_sets_the_clock(p: TimePicker, ev: KeyEvent, day: u16)
    requires
        p.wf(),
        p.seconds(day) <= u32::MAX,
    ensures
        ev.key == Key::Confirm && ev.kind == KeyKind::Press ==> p.picked(ev, day).set_time == Some(
            (day * 86_400 + p.hour * 3600 + p.minute * 60) as u32,
        ) && p.picked(ev, day).action is PopWith,
        ev.key == Key::Back && ev.kind == KeyKind::Press ==> p.picked(ev, day).set_time is None && p.picked(ev, day).action
            == Action::PopWith(Result_::Cancel),
        p.picked(ev, day).set_time is Some ==> ev.key == Key::Confirm,
        (ev.key == Key::Up || ev.key == Key::Left) && ev.kind == KeyKind::Press ==> p.picked(ev, day).action == Action::Redraw,
{
}

} // verus!
