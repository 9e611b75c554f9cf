use quire::draw::{Base, Face, Faces, Frame, Ink, Metrics, Op, Place, Rect, Sheet, TextOp, Theme};
use quire::firstrun_draw::StartHere;
use quire::index::{BookEntry, BookId, BookStats, Format, IngestState, Library, Loc, Status};
use quire::input::{Key, KeyEvent, Refresh};
use quire::jump::{all_rows, open_target, Jump, JumpFacts, Target};
use quire::jump_draw::{draw_empty_home, EmptyHome, EMPTY_TEXT, NO_ADDRESS_TEXT};
use quire::platform::{Action, Event, Result_, ScreenAsk, WifiState};
use quire::widgets::Measured;

fn sheet() -> Sheet {
    let m = Metrics { ascent: 20, below: 6, line_h: 30 };
    Sheet {
        w: 528,
        h: 792,
        faces: Faces { title: m, mono: m, label: m, list_title: m, body: m, poster: m, hero: m },
        theme: Theme { rail_h: 48, row_pad: 24, row_h: 64, margin: 24, spine_w: 12 },
    }
}

fn book(id: u64, status: Status) -> BookEntry {
    BookEntry {
        id: BookId(id),
        path: format!("/Books/{id}.epub"),
        size: 1,
        format: Format::Epub,
        title: format!("Book {id}"),
        authors: Vec::new(),
        series: None,
        year: None,
        language: "en".into(),
        sections: 0,
        chars: 10,
        has_cover: false,
        ingest: IngestState::Ready,
        error: None,
        added: id as u32,
        last_opened: 0,
        loc: Loc::default(),
        status,
        collections: Vec::new(),
        stats: BookStats::default(),
        missing: false,
        pages_total: None,
    }
}

fn facts(simple_mode: bool) -> JumpFacts {
    JumpFacts {
        streak: 4,
        size: 28,
        sleep: "Cover".into(),
        wifi: WifiState::Connecting("home".into()),
        days_left: None,
        version: "1.2".into(),
        clock: "12:00".into(),
        weather: Some("21".into()),
        simple_mode,
    }
}

fn jump(simple_mode: bool) -> Jump {
    let mut lib = Library::load(None, None, Vec::new());
    for id in 1..=5 {
        lib.upsert(book(id, if id == 5 { Status::Finished } else { Status::Reading }));
    }
    let left = (0..4).map(|i| format!("{i} h")).collect();
    let mut j = Jump::new();
    j.rows = all_rows(&lib, &left, &facts(simple_mode));
    j
}

fn titles(j: &Jump) -> Vec<&str> {
    j.filtered().iter().map(|i| j.rows[*i].title.as_str()).collect()
}

#[test]
fn jump_lists_recents_then_features() {
    let j = jump(false);
    assert_eq!(j.rows.len(), 4 + 21 + 16);
    let first: Vec<(&str, &str, u8)> = j.rows[..5].iter().map(|r| (r.title.as_str(), r.value.as_str(), r.group)).collect();
    assert_eq!(first, [("Book 5", "finished", 0), ("Book 4", "1 h", 0), ("Book 3", "2 h", 0), ("Book 2", "3 h", 0), ("About", "1.2", 1)]);
    let value = |t: &str| j.rows.iter().find(|r| r.title == t).unwrap().value.as_str();
    assert_eq!(value("Library"), "5 books");
    assert_eq!(value("Stats"), "4 day streak");
    assert_eq!(value("Type"), "28 px");
    assert_eq!(value("Wi-Fi"), "joining home");
    assert_eq!(value("Battery"), "—");
    assert_eq!(value("Weather"), "21°");
    let apps: Vec<&str> = j.rows.iter().filter(|r| r.group == 2).map(|r| r.title.as_str()).collect();
    assert_eq!(apps[..3], ["2048", "Apps", "Calculator"]);
    assert!(jump(true).rows.iter().all(|r| r.group < 2));
}

#[test]
fn hits_at_the_start_of_a_word_come_first() {
    let mut j = jump(false);
    assert_eq!(titles(&j).len(), j.rows.len());
    j.query = "WE".into();
    assert_eq!(titles(&j), ["Weather", "Minesweeper"]);
    j.query = "zzz".into();
    assert!(titles(&j).is_empty());
}

#[test]
fn targets_open() {
    assert_eq!(open_target(&Target::Book(BookId(3)), false, false), Action::Open(BookId(3)));
    let go = |n, reader, app| open_target(&Target::Screen(n), reader, app);
    assert_eq!(go("11-library", false, false), Action::Replace(ScreenAsk::Named("11-library")));
    assert_eq!(go("22-contents", true, false), Action::Replace(ScreenAsk::Named("22-contents")));
    assert_eq!(go("22-contents", false, false), Action::Pop);
    assert_eq!(go("80-chess", false, true), Action::Replace(ScreenAsk::Named("80-chess")));
    assert_eq!(go("99-nothing", false, false), Action::Pop);
}

#[test]
fn jump_takes_keys_and_text() {
    let mut j = jump(false);
    let mut f = Frame::new(sheet());
    let widths = vec![40; j.rows.len()];
    assert_eq!(j.draw(&mut f, 64, &widths, 0, 150), Refresh::Du);
    assert_eq!((j.nav.n, j.nav.per_page), (41, 10));
    assert_eq!(j.key(KeyEvent::press(Key::Confirm), false, false), Action::Open(BookId(5)));
    assert_eq!(j.focused(), Some(Target::Book(BookId(5))));
    assert_eq!(j.key(KeyEvent::press(Key::Down), false, false), Action::Redraw);
    assert_eq!(j.nav.focus, 1);
    assert_eq!(j.key(KeyEvent::press(Key::Back), false, false), Action::Pop);
    let t9 = ScreenAsk::T9 { title: "Jump".into(), initial: "".into(), hint: "Search everything".into() };
    assert_eq!(j.key(KeyEvent::long(Key::Confirm), false, false), Action::Push(t9));
    let mut phone = Some("we".to_string());
    assert_eq!(j.event(&Event::PhoneText("we".into()), &mut phone), Action::Redraw);
    assert_eq!((j.nav.focus, phone), (0, None));
    assert_eq!(j.key(KeyEvent::press(Key::Confirm), false, true), Action::Replace(ScreenAsk::Named("74-weather")));
    assert_eq!(j.result(&Result_::Text("x".into())), Action::Redraw);
    assert_eq!(j.query, "x");
    j.query = "zzz".into();
    assert_eq!(j.key(KeyEvent::press(Key::Confirm), false, false), Action::Pop);
}

fn texts(f: &Frame) -> Vec<&str> {
    f.ops.iter().filter_map(|o| if let Op::Text(t) = o { Some(t.text.as_str()) } else { None }).collect()
}

#[test]
fn jump_draws_its_groups_above_the_rail() {
    let mut j = jump(false);
    let mut f = Frame::new(sheet());
    let widths = vec![40; j.rows.len()];
    j.draw(&mut f, 64, &widths, 0, 150);
    let t = texts(&f);
    assert_eq!(t[..4], ["", "Type on your phone", "Recent", "finished"]);
    assert!(t.contains(&"Everything") && t.contains(&"1 / 5"));
    assert_eq!(f.ops[2], Op::Fill(Rect { x: 24, y: 18, w: 2, h: 30 }, Ink::Black));
    let rail_top = 792 - 48;
    let rows: Vec<i32> = f.ops.iter().filter_map(|o| if let Op::Fill(r, _) = o { (r.h == 64).then_some(r.y) } else { None }).collect();
    assert_eq!(rows[..5], [96, 160, 224, 288, 384]);
    assert!(rows.iter().all(|y| y + 64 <= rail_top));
    // Searching, the groups have no labels and the caret follows the query.
    j.query = "we".into();
    let mut f = Frame::new(sheet());
    j.draw(&mut f, 64, &widths, 30, 150);
    assert!(!texts(&f).contains(&"Apps and games"));
    assert_eq!(f.ops[2], Op::Fill(Rect { x: 24 + 30 + 2, y: 18, w: 2, h: 30 }, Ink::Black));
}

#[test]
fn the_empty_home_says_where_to_start() {
    let m = |t: &str, w: i32| Measured { text: t.into(), width: w };
    let pick = |t: &str| StartHere { title: t.into(), author: "A".into(), hours: m("3 h", 40) };
    let mut t = EmptyHome {
        lines: vec![EMPTY_TEXT.into()],
        start_here: vec![pick("One"), pick("Two"), pick("Three"), pick("Four")],
        wifi: WifiState::Connecting("n".into()),
        address: "quire.local".into(),
        code: None,
        hint: vec![NO_ADDRESS_TEXT.into()],
        drop_w: 50,
        stats_w: 50,
    };
    let mut f = Frame::new(sheet());
    draw_empty_home(&mut f, &t);
    let shown = texts(&f);
    assert_eq!(shown[..3], ["Nothing open yet", "Three good places to start, free from the Bookshop.", "Free in the Bookshop"]);
    assert!(shown.contains(&"Three") && !shown.contains(&"Four") && shown.contains(&"Open Drop and the reader puts its own address here to scan."));
    let first = f.ops.iter().find(|o| matches!(o, Op::Text(t) if t.text == "One")).unwrap();
    // 40 + 26 + 8 + 30 + 24 + 30 + 8 is where the first pick starts.
    let want = TextOp {
        face: Face::Body,
        x: 32,
        place: Place::Start,
        base: Base::At(166 + 12 + 20),
        text: "One".to_string(),
        fit: Some(464 - 40 - 24),
        inverted: false,
        caps: false,
    };
    assert_eq!(*first, Op::Text(want));
    assert!(!shown.contains(&"quire.local"));
    t.wifi = WifiState::Hotspot { ssid: "n".into(), password: "p".into(), ip: "192.168.4.1".into() };
    t.code = Some(100);
    let mut f = Frame::new(sheet());
    draw_empty_home(&mut f, &t);
    assert!(f.ops.iter().any(|o| matches!(o, Op::Code(32, _, 4))));
    assert!(f.ops.iter().any(|o| matches!(o, Op::Text(t) if t.text == "quire.local" && t.x == 144)));
    assert!(!texts(&f).contains(&NO_ADDRESS_TEXT));
}
