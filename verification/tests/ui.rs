use quire::index::{BookEntry, BookId, BookStats, Format, IngestState, Library, Loc, SaveEvent, Status};
use quire::input::{Key, KeyEvent, Refresh};
use quire::platform::{Action, Event, Result_, ScreenAsk, SysRequest};
use quire::ui::{is_sleep_screen, settings_hash, BaseId, DrawPlan, Held, NewScreen, SleepStep, Turn, Ui, MAX_STACK};

fn screen(name: &str, overlay: bool) -> NewScreen {
    NewScreen { name: name.into(), overlay, tick_needs_fs: false }
}

fn book(id: u64) -> BookEntry {
    BookEntry {
        id: BookId(id),
        path: format!("/Books/{id}.epub"),
        size: 1,
        format: Format::Epub,
        title: format!("Book {id}"),
        authors: Vec::new(),
        series: None,
        year: None,
        language: "en".into(),
        sections: 0,
        chars: 10,
        has_cover: false,
        ingest: IngestState::Pending,
        error: None,
        added: 0,
        last_opened: 0,
        loc: Loc::default(),
        status: Status::Unread,
        collections: Vec::new(),
        stats: BookStats::default(),
        missing: false,
        pages_total: None,
    }
}

fn ui() -> Ui {
    let mut lib = Library::load(None, None, Vec::new());
    lib.upsert(book(1));
    Ui::new(lib, true, 0)
}

fn push(u: &mut Ui, name: &'static str, overlay: bool) {
    u.apply(Action::Push(ScreenAsk::Named(name)), &screen(name, overlay));
}

#[test]
fn the_root_is_the_reader_or_the_wizard() {
    assert_eq!(ui().stack_names(), ["20-reading"]);
    let first = Ui::new(Library::load(None, None, Vec::new()), false, 0);
    assert_eq!(first.top_name(), "02-firstrun-language");
    assert_eq!(ui().open_current(), None);
}

#[test]
fn history_is_bounded_and_keeps_the_root() {
    let mut u = ui();
    for _ in 0..12 {
        push(&mut u, "11-library", false);
    }
    assert_eq!(u.stack_names().len(), MAX_STACK);
    assert_eq!(u.stack_names()[0], "20-reading");
    for _ in 0..12 {
        u.apply(Action::Pop, &screen("", false));
    }
    assert_eq!(u.stack_names(), ["20-reading"]);
}

#[test]
fn popping_undoes_pushing() {
    let mut u = ui();
    push(&mut u, "11-library", false);
    let before = u.stack_names();
    push(&mut u, "41-power", true);
    let p = u.apply(Action::Pop, &screen("", false));
    assert!(p.resume && p.draw);
    assert_eq!(u.stack_names(), before);
    let p = u.apply(Action::PopWith(Result_::Choice(2)), &screen("", false));
    assert_eq!(p.deliver, Some(Result_::Choice(2)));
    assert!(!p.draw);
}

#[test]
fn other_ways_through_the_stack() {
    let mut u = ui();
    push(&mut u, "42-jump", false);
    push(&mut u, "11-library", false);
    u.apply(Action::Replace(ScreenAsk::Named("35-bookshop")), &screen("35-bookshop", false));
    assert_eq!(u.stack_names(), ["20-reading", "42-jump", "35-bookshop"]);
    push(&mut u, "50-settings", false);
    u.apply(Action::PopTo("42-jump"), &screen("", false));
    assert_eq!(u.stack_names(), ["20-reading", "42-jump"]);
    u.apply(Action::ToReader, &screen("", false));
    assert_eq!(u.stack_names(), ["20-reading"]);
    let p = u.apply(Action::Open(BookId(1)), &screen("", false));
    assert_eq!(p.open, Some(BookId(1)));
    let p = u.apply(Action::System(SysRequest::WifiOn), &screen("", false));
    assert_eq!(p.request, Some(SysRequest::WifiOn));
    assert!(!u.apply(Action::Nothing, &screen("", false)).draw);
    let mut first = Ui::new(Library::load(None, None, Vec::new()), false, 0);
    first.apply(Action::ToReader, &screen("", false));
    assert_eq!(first.stack_names(), ["20-reading"]);
}

#[test]
fn overlays_leave_the_base_alone() {
    let mut u = ui();
    let base = u.base_id();
    let p = u.apply(Action::Push(ScreenAsk::Named("41-power")), &screen("41-power", true));
    assert_eq!(u.base_id(), base);
    assert_eq!(u.refresh_after(&vec![p.mark.unwrap()], Refresh::Du), Refresh::Du);
    let p = u.apply(Action::Push(ScreenAsk::Named("11-library")), &screen("11-library", false));
    assert_eq!(u.base_id(), BaseId { at: 2, id: Some(2) });
    assert_eq!(u.refresh_after(&vec![p.mark.unwrap()], Refresh::Du), Refresh::Gc);
    assert_eq!(u.refresh_after(&vec![p.mark.unwrap()], Refresh::Nothing), Refresh::Nothing);
}

#[test]
fn the_universal_keys() {
    let mut u = ui();
    let long_back = Event::Key(KeyEvent::long(Key::Back));
    assert_eq!(u.handle(&long_back), Turn::Act(Action::Push(ScreenAsk::Named("42-jump"))));
    push(&mut u, "42-jump", false);
    assert_eq!(u.handle(&long_back), Turn::ToKey(KeyEvent::long(Key::Back)));
    push(&mut u, "11-library", false);
    assert_eq!(u.handle(&long_back), Turn::Act(Action::PopTo("42-jump")));
    assert_eq!(u.handle(&Event::Key(KeyEvent::long(Key::Power))), Turn::Act(Action::Push(ScreenAsk::Named("41-power"))));
    assert_eq!(u.handle(&Event::Key(KeyEvent::press(Key::Power))), Turn::Act(Action::Push(ScreenAsk::Named("40-sleep"))));
    assert_eq!(u.handle(&Event::Key(KeyEvent::press(Key::Up))), Turn::ToKey(KeyEvent::press(Key::Up)));
    assert_eq!(u.handle(&Event::PhoneKey(KeyEvent::long(Key::Back))), Turn::ToKey(KeyEvent::long(Key::Back)));
    assert_eq!(u.handle(&Event::BooksChanged), Turn::ToEvent);
}

#[test]
fn only_power_unlocks() {
    let mut u = ui();
    u.apply(Action::System(SysRequest::LockKeys(true)), &screen("", false));
    assert!(u.locked);
    let up = Event::Key(KeyEvent::press(Key::Up));
    assert_eq!(u.handle(&up), Turn::Act(Action::Push(ScreenAsk::Named("45-locked"))));
    push(&mut u, "45-locked", true);
    assert_eq!(u.handle(&up), Turn::ToKey(KeyEvent::press(Key::Up)));
    let unlock = SysRequest::LockKeys(false);
    assert_eq!(u.handle(&Event::Key(KeyEvent::long(Key::Power))), Turn::AskAndAct(unlock.clone(), Action::System(unlock)));
}

#[test]
fn a_sleep_screen_gets_every_key() {
    let mut u = ui();
    push(&mut u, "40-sleep", false);
    assert_eq!(u.handle(&Event::Key(KeyEvent::press(Key::Power))), Turn::ToKey(KeyEvent::press(Key::Power)));
    assert!(is_sleep_screen("40-sleep-charging") && !is_sleep_screen("41-power"));
}

#[test]
fn sleeping_and_waking() {
    let mut u = ui();
    push(&mut u, "40-sleep", false);
    let a = u.settle(&Event::Tick, 10);
    assert!(a.sleep && !a.save && u.asleep);
    u.draw(None, false, 60);
    assert_eq!(u.frame_holds, Some(Held::Sleep(1, false)));
    assert!(!u.sleep_tick_needs_fs());
    assert_eq!(u.handle(&Event::Tick), Turn::SleepTick);
    assert_eq!(u.sleep_tick(119), SleepStep::Still);
    assert_eq!(u.sleep_tick(120), SleepStep::Repaint(false));
    u.handle(&Event::Wake);
    assert!(!u.asleep);
    u.close_book();
    assert_eq!(u.sleep_tick(180), SleepStep::Afresh);
    assert!(u.sleep_tick_needs_fs());
    u.apply(Action::Pop, &screen("", false));
    assert!(u.settle(&Event::Tick, 30).save);
    assert!(!u.settle(&Event::Tick, 59).save && u.settle(&Event::Tick, 60).save);
}

#[test]
fn a_page_in_the_frame_is_kept_under_overlays() {
    let mut u = ui();
    assert!(!u.draw(Some(7), false, 0).reuse);
    assert_eq!(u.frame_holds, Some(Held::Page(7, false)));
    push(&mut u, "41-power", true);
    let p = u.draw(Some(7), false, 0);
    assert!(p.reuse && p.start == 0);
    assert_eq!(u.frame_holds, None);
    assert!(!u.draw(Some(7), false, 0).reuse);
}

#[test]
fn events_are_noted() {
    let mut u = ui();
    u.handle(&Event::Ingest { id: BookId(1), done: 1, total: 3, finished: None });
    assert_eq!(u.ingesting, [(BookId(1), 1, 3)]);
    u.lib.save(SaveEvent::Index(true));
    let before = u.lib.generation();
    u.handle(&Event::Ingest { id: BookId(9), done: 3, total: 3, finished: Some(Err("bad zip".into())) });
    assert!(!u.lib.is_dirty() && u.lib.generation() == before);
    u.handle(&Event::Ingest { id: BookId(1), done: 3, total: 3, finished: Some(Err("bad zip".into())) });
    assert!(u.lib.is_dirty());
    assert_eq!(u.lib.generation(), before + 1);
    assert!(u.ingesting.is_empty());
    assert_eq!(u.lib.books[0].ingest, IngestState::Failed);
    assert_eq!(u.lib.books[0].error.as_deref(), Some("bad zip"));
    u.handle(&Event::PhoneText("hi".into()));
    assert_eq!(u.phone_text.as_deref(), Some("hi"));
}

#[test]
fn opening_a_book_makes_it_current() {
    let mut u = ui();
    assert!(!u.open_book(BookId(1), 5, false));
    assert_eq!(u.open_current(), None);
    assert!(u.open_book(BookId(1), 5, true));
    assert_eq!(u.open_current(), Some(BookId(1)));
    assert!(u.lib.is_dirty());
    u.rename_top("22-contents");
    assert_eq!(u.top_name(), "22-contents");
    u.push(ScreenAsk::Named("30-drop"), &screen("30-drop", false));
    assert_eq!(u.top_name(), "30-drop");
}

#[test]
fn settings_are_told_apart_by_their_hash() {
    assert_eq!(settings_hash(b""), 0xcbf2_9ce4_8422_2325);
    assert_eq!(settings_hash(b"a"), 0xaf63_dc4c_8601_ec8c);
    let mut u = ui();
    assert!(u.settings_changed(5) && !u.settings_changed(0));
    u.settings_saved(5, false);
    assert!(u.settings_changed(5));
    u.settings_saved(5, true);
    assert!(!u.settings_changed(5));
}

#[test]
fn a_kept_page_needs_no_full_refresh() {
    let fresh = DrawPlan { start: 0, reuse: false, inverted: false };
    let kept = DrawPlan { reuse: true, ..fresh };
    assert_eq!(Ui::drawn(&fresh, Some(Refresh::Gc)), Refresh::Gc);
    assert_eq!(Ui::drawn(&kept, Some(Refresh::Gc)), Refresh::Du);
    assert_eq!(Ui::drawn(&fresh, None), Refresh::Du);
}

#[test]
fn screens_are_told_apart() {
    let mut u = ui();
    assert_eq!(u.next_id, 1);
    push(&mut u, "11-library", false);
    push(&mut u, "41-power", true);
    assert_eq!(u.next_id, 3);
    // Nothing new comes onto the stack.
    u.apply(Action::Redraw, &screen("", false));
    u.apply(Action::Pop, &screen("", false));
    u.apply(Action::ToReader, &screen("", false));
    assert_eq!((u.next_id, u.screens.len()), (3, 1));
    u.apply(Action::Open(BookId(1)), &screen("", false));
    assert_eq!((u.next_id, u.screens[0].id), (4, 3));
    // The root stays, though it is all there is.
    u.apply(Action::Replace(ScreenAsk::Named("11-library")), &screen("11-library", false));
    assert_eq!(u.stack_names(), ["20-reading", "11-library"]);
    let mut seen: Vec<u64> = u.screens.iter().map(|p| p.id).collect();
    seen.dedup();
    assert_eq!(seen.len(), 2);
}

#[test]
fn another_page_is_a_full_refresh() {
    let mut u = ui();
    let p = u.apply(Action::Push(ScreenAsk::Named("41-power")), &screen("41-power", true));
    assert_eq!(u.refresh_after(&vec![p.mark.unwrap()], Refresh::Du), Refresh::Du);
    let p = u.apply(Action::Replace(ScreenAsk::Named("11-library")), &screen("11-library", false));
    assert_eq!(u.refresh_after(&vec![p.mark.unwrap()], Refresh::Du), Refresh::Gc);
    // Another screen of the same name in the same place is another page.
    let p = u.apply(Action::Replace(ScreenAsk::Named("11-library")), &screen("11-library", false));
    assert_eq!(u.refresh_after(&vec![p.mark.unwrap()], Refresh::Du), Refresh::Gc);
}
