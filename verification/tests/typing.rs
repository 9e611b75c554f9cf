use quire::firstrun::{boxed, Choices, FirstRun, TimePicker, DAY};
use quire::index::Library;
use quire::input::{Key, KeyEvent, KeyKind};
use quire::keyboard::{phone_url, t9_set, KeyboardScreen, Layer};
use quire::platform::{Action, Event, Result_, ScreenAsk, WifiState};

fn press(k: &mut KeyboardScreen, key: Key) -> Action {
    k.key(KeyEvent::press(key), 0)
}

#[test]
fn typing_follows_the_focus() {
    let mut k = KeyboardScreen::new("Name", "", "your name");
    press(&mut k, Key::Confirm);
    press(&mut k, Key::Down);
    press(&mut k, Key::Confirm);
    assert_eq!(k.text, "qw");
    press(&mut k, Key::Left);
    assert_eq!(k.layer, Layer::Upper);
    press(&mut k, Key::Confirm);
    assert_eq!(k.text, "qwW");
    assert_eq!(k.layer, Layer::Lower);
    k.key(KeyEvent::long(Key::Confirm), 0);
    assert_eq!(k.text, "qw");
    assert_eq!(press(&mut k, Key::Right), Action::PopWith(Result_::Text("qw".into())));
    assert_eq!(press(&mut k, Key::Back), Action::PopWith(Result_::Cancel));
    assert_eq!(k.key(KeyEvent { key: Key::Confirm, kind: KeyKind::Release }, 0), Action::Nothing);
}

#[test]
fn the_side_keys_read_on_and_back() {
    let mut k = KeyboardScreen::new("", "", "");
    let mut seen = Vec::new();
    for _ in 0..30 {
        seen.push(k.focus);
        press(&mut k, Key::Down);
    }
    // 10 + 9 + 7 letters and 4 actions, then round to the first.
    assert_eq!(k.focus, (0, 0));
    assert_eq!(seen[10], (1, 0));
    assert_eq!(seen[29], (3, 3));
    press(&mut k, Key::Up);
    assert_eq!(k.focus, (3, 3));
    press(&mut k, Key::Down);
    assert_eq!(k.focus, (0, 0));
}

#[test]
fn t9_taps_go_round() {
    let mut k = KeyboardScreen::t9("Search", "", "");
    press(&mut k, Key::Down);
    for (t, want) in [(0u32, "a"), (100, "b"), (200, "c"), (300, "a")] {
        k.key(KeyEvent::press(Key::Confirm), t);
        assert_eq!(k.text, want);
    }
    k.key(KeyEvent::press(Key::Confirm), 300 + 900);
    assert_eq!(k.text, "aa");
    assert_eq!(t9_set(8), "wxyz");
    press(&mut k, Key::Left);
    k.key(KeyEvent::press(Key::Confirm), 5_000);
    assert_eq!(k.text, "aaA");
}

#[test]
fn capitals_are_those_of_the_language() {
    // The capital of a T9 letter is the first character of its upper case.
    let mut k = KeyboardScreen::t9("", "", "");
    k.layer = Layer::Upper;
    k.focus = (2, 0);
    press(&mut k, Key::Confirm);
    assert_eq!(k.text, "P");
}

#[test]
fn text_stays_short_and_secret() {
    let mut k = KeyboardScreen::new("", &"x".repeat(199), "");
    press(&mut k, Key::Confirm);
    assert_eq!(k.text.len(), 200);
    press(&mut k, Key::Confirm);
    assert_eq!(k.text.len(), 200);
    let s = KeyboardScreen::new("Password", "abc", "").secret();
    assert_eq!(s.shown(), "••c");
    assert_eq!(KeyboardScreen::new("", "abc", "").shown(), "abc");
}

#[test]
fn text_from_the_phone_is_taken() {
    let mut k = KeyboardScreen::new("", "a", "");
    let mut phone = Some("typed".to_string());
    assert_eq!(k.event(&Event::PhoneText("typed".into()), &mut phone), Action::Redraw);
    assert_eq!((k.text.as_str(), phone), ("typed", None));
    let mut none = None;
    assert_eq!(k.event(&Event::Tick, &mut none), Action::Nothing);
    let joined = WifiState::Connected { ssid: "n".into(), ip: "10.0.0.2".into(), host: "reader".into(), signal: 1 };
    assert_eq!(phone_url(&joined, "quire"), "http://reader.local/type");
    let ap = WifiState::Hotspot { ssid: "n".into(), password: "p".into(), ip: "192.168.4.1".into() };
    assert_eq!(phone_url(&ap, "quire"), "http://192.168.4.1/type");
    assert_eq!(phone_url(&WifiState::Off, "quire"), "http://quire.local/type");
}

fn choices() -> Choices {
    Choices { language: "en".into(), bookshop_language: "en".into(), first_run_done: false }
}

#[test]
fn the_wizard_runs_to_its_last_page() {
    let lib = Library::load(None, None, Vec::new());
    let mut w = FirstRun::new();
    let mut c = choices();
    w.key(KeyEvent::press(Key::Down), &mut c, &lib);
    w.key(KeyEvent::press(Key::Confirm), &mut c, &lib);
    assert_eq!((w.page, c.language.as_str()), (1, "de"));
    assert_eq!(w.key(KeyEvent::press(Key::Confirm), &mut c, &lib), Action::Push(ScreenAsk::Named("02-time-picker")));
    w.key(KeyEvent::press(Key::Right), &mut c, &lib);
    w.key(KeyEvent::press(Key::Back), &mut c, &lib);
    assert_eq!(w.page, 1);
    w.key(KeyEvent::press(Key::Right), &mut c, &lib);
    w.key(KeyEvent::press(Key::Right), &mut c, &lib);
    assert!(!c.first_run_done);
    assert_eq!(w.key(KeyEvent::press(Key::Right), &mut c, &lib), Action::ToReader);
    assert!(c.first_run_done);
}

#[test]
fn languages_go_round() {
    let lib = Library::load(None, None, Vec::new());
    let mut w = FirstRun::new();
    let mut c = choices();
    w.key(KeyEvent::press(Key::Up), &mut c, &lib);
    assert_eq!(w.focus, 3);
    w.key(KeyEvent::press(Key::Down), &mut c, &lib);
    assert_eq!(w.focus, 0);
}

#[test]
fn the_time_picker_steps_round() {
    let mut p = TimePicker::new(2026, 2, 28, 23, 59);
    assert_eq!((p.year, p.month, p.day, p.hour, p.minute, p.focus), (2026, 2, 28, 23, 59, 3));
    p.key(KeyEvent::press(Key::Right), 28, 20_000);
    assert_eq!(p.hour, 0);
    p.key(KeyEvent::press(Key::Left), 28, 20_000);
    assert_eq!(p.hour, 23);
    p.key(KeyEvent::press(Key::Up), 28, 20_000);
    p.key(KeyEvent::press(Key::Right), 28, 20_000);
    assert_eq!(p.day, 1);
    let k = p.key(KeyEvent::press(Key::Confirm), 28, 20_000);
    assert_eq!(k.set_time, Some(20_000 * 86_400 + 23 * 3_600 + 59 * 60));
    assert_eq!(k.action, Action::PopWith(Result_::Choice(0)));
    assert_eq!(p.key(KeyEvent::press(Key::Back), 28, 20_000).action, Action::PopWith(Result_::Cancel));
    assert_eq!(p.ts(1), 86_400 + 23 * 3_600 + 59 * 60);
}

#[test]
fn confirming_the_time_at_once_keeps_it() {
    // 6 August 2024, 13:37:42.
    let now: u32 = 1_722_951_462;
    let (day, t) = ((now / DAY) as u16, now % DAY);
    let mut p = TimePicker::new(2024, 8, 6, (t / 3_600) as u8, (t / 60 % 60) as u8);
    let k = p.key(KeyEvent::press(Key::Confirm), 31, day);
    assert_eq!(k.set_time, Some(1_722_951_420));
}

#[test]
fn screens_come_in_boxes() {
    assert_eq!(boxed().page, 0);
    assert_eq!(KeyboardScreen::new("Name", "a", "").boxed().text, "a");
}
