use quire::charts::{ink_line, step_line, tallest_text};
use quire::draw::{Base, Face, Faces, Frame, Icon, Ink, Metrics, Op, Pattern, Place, Rect, Shade, Sheet, TextOp, Theme};
use quire::firstrun::{FirstRun, TimePicker};
use quire::firstrun_draw::{tip, WizardTexts, DROP_TEXT, TIPS};
use quire::input::{Key, KeyEvent, Refresh};
use quire::keyboard::KeyboardScreen;
use quire::platform::Battery;
use quire::tabs::tabs;
use quire::widgets::{
    cover_cell, cover_face, cover_text_width, dialog, empty_state, heat_fill, poster_centered, poster_tiles, rail, reading_head,
    reading_right, row, row_thumb, rows_between, running_head, screen, section_label, setting_row, side_labels, status_icons,
    stepped_bar, tail_fit, text_field, typographic_cover, working_card, Bitmap, CoverArt, ListNav, Measured, RowState, SettingValue,
    Tile, SIDE_H, SIDE_Y,
};

fn sheet() -> Sheet {
    let m = Metrics { ascent: 20, below: 6, line_h: 30 };
    Sheet {
        w: 528,
        h: 792,
        faces: Faces { title: m, mono: m, label: m, list_title: m, body: m, poster: m, hero: m },
        theme: Theme { rail_h: 48, row_pad: 24, row_h: 64, margin: 24, spine_w: 12 },
    }
}

fn frame() -> Frame {
    Frame::new(sheet())
}

fn m(t: &str, width: i32) -> Measured {
    Measured { text: t.into(), width }
}

fn text(face: Face, x: i32, base: Base, t: &str, fit: Option<i32>, inverted: bool) -> Op<String> {
    Op::Text(TextOp { face, x, place: Place::Start, base, text: t.into(), fit, inverted, caps: false })
}

fn caps(x: i32, y: i32, t: &str, fit: Option<i32>) -> Op<String> {
    Op::Text(TextOp {
        face: Face::Label,
        x,
        place: Place::Start,
        base: Base::At(y),
        text: t.into(),
        fit,
        inverted: false,
        caps: true,
    })
}

fn centred(face: Face, x: i32, y: i32, t: &str) -> Op<String> {
    Op::Text(TextOp {
        face,
        x,
        place: Place::Centre,
        base: Base::At(y),
        text: t.into(),
        fit: None,
        inverted: false,
        caps: false,
    })
}

fn fill(x: i32, y: i32, w: u32, h: u32, ink: Ink) -> Op<String> {
    Op::Fill(Rect { x, y, w, h }, ink)
}

fn fills(f: &Frame) -> Vec<Rect> {
    f.ops.iter().filter_map(|o| if let Op::Fill(r, _) = o { Some(*r) } else { None }).collect()
}

#[test]
fn a_row_is_paper_value_title_and_rule() {
    let mut f = frame();
    row(&mut f, 100, 64, "Title", None, Some(&m("7", 20)), RowState::Focused);
    assert_eq!(f.ops[0], fill(0, 100, 528, 64, Ink::Black));
    assert_eq!(f.ops[1], text(Face::Mono, 528 - 24 - 20, Base::Mid(100, 64), "7", None, true));
    assert_eq!(f.ops[2], text(Face::ListTitle, 24, Base::Mid(100, 64), "Title", Some(528 - 24 - 20 - 16 - 24), true));
    assert!(fills(&f).iter().all(|r| r.y >= 100 && r.y + r.h as i32 <= 164));
}

#[test]
fn the_rail_keeps_to_its_strip() {
    let mut f = frame();
    rail(&mut f, ["", "Close", "—", "Open"], Some(3));
    assert_eq!(f.ops[0], fill(0, 744, 528, 48, Ink::White));
    assert_eq!(f.ops[1], fill(0, 744, 528, 4, Ink::Black));
    // An idle cell shows a dot.
    assert!(f.ops.contains(&fill(65, 769, 2, 2, Ink::Black)));
    assert!(f.ops.contains(&fill(396, 748, 132, 44, Ink::Black)));
    assert!(fills(&f).iter().all(|r| r.y >= 744 && r.y + r.h as i32 <= 792));
}

#[test]
fn heads_keep_the_insets() {
    let mut f = frame();
    running_head(&mut f, "Library", Some(&m("1 / 3", 60)));
    let xs: Vec<i32> = f.ops.iter().filter_map(|o| if let Op::Text(t) = o { Some(t.x) } else { None }).collect();
    assert!(xs.iter().all(|x| (32..=528 - 32).contains(x)));
    assert_eq!(reading_right("", "12"), "12");
}

#[test]
fn side_labels_face_each_other() {
    let mut f = frame();
    side_labels(&mut f, Some(&m("Drop", 50)), Some(&m("Stats", 50)), true);
    let plates: Vec<Rect> = f.ops.iter().filter_map(|o| if let Op::Fill(r, Ink::White) = o { Some(*r) } else { None }).collect();
    assert_eq!(plates[0].y, plates[1].y);
    assert_eq!(plates[0].x, 10);
    assert_eq!(plates[1].x + plates[1].w as i32, 528 - 10);
    let ticks: Vec<Rect> = fills(&f).into_iter().filter(|r| r.w == 2).collect();
    assert!(ticks.iter().all(|t| t.y >= SIDE_Y && t.y + t.h as i32 <= SIDE_Y + SIDE_H));
    assert_eq!(ticks[1].x + 2, 528 - 2);
}

#[test]
fn section_labels_have_a_hairline() {
    let mut f = frame();
    assert_eq!(section_label(&mut f, 100, "Recent"), 132);
    assert_eq!(f.ops[1], fill(0, 131, 528, 1, Ink::Black));
}

#[test]
fn lists_page_and_go_round() {
    let mut n = ListNav::new(25, 10);
    n.key(KeyEvent::press(Key::Up));
    assert_eq!(n.focus, 24);
    n.key(KeyEvent::press(Key::Down));
    assert_eq!(n.focus, 0);
    n.key(KeyEvent::press(Key::Right));
    assert_eq!((n.focus, n.page(), n.pages()), (10, 1, 3));
    n.key(KeyEvent::press(Key::Right));
    n.key(KeyEvent::press(Key::Right));
    assert_eq!(n.focus, 0);
    n.key(KeyEvent::press(Key::Left));
    assert_eq!((n.focus, n.visible()), (20, 20..25));
    n.set_n(5);
    assert_eq!(n.focus, 4);
    assert!(!n.key(KeyEvent::press(Key::Confirm)));
    assert_eq!((rows_between(64, 744, 64), rows_between(64, 65, 64)), (10, 1));
    assert_eq!((rows_between(0, i32::MIN, -2), rows_between(0, i32::MIN, i32::MIN)), (1 << 30, 1));
    assert_eq!((rows_between(0, i32::MIN, 7), rows_between(0, -100, -10)), (1, 10));
    // A focus off the items, and more rows than could be added up.
    let mut n = ListNav { focus: 12, n: 5, per_page: usize::MAX };
    assert_eq!(n.pages(), 1);
    n.key(KeyEvent::press(Key::Down));
    assert_eq!(n.focus, 3);
    n.key(KeyEvent::press(Key::Right));
    assert_eq!(n.focus, 0);
}

#[test]
fn setting_rows_show_their_values() {
    assert_eq!(SettingValue::Stepper("26".into()).text(), "‹ 26 ›");
    assert_eq!(SettingValue::Choice("Justified".into()).text(), "Justified ›");
    assert_eq!(SettingValue::Toggle(true).text(), "");
    let mut f = frame();
    setting_row(&mut f, 0, 64, "Dark", &SettingValue::Toggle(true), 0, RowState::Normal);
    assert_eq!(f.ops[1], Op::Stroke(Rect { x: 448, y: 18, w: 56, h: 28 }, 2, Ink::Black));
    assert_eq!(f.ops[2], fill(478, 20, 24, 24, Ink::Black));
    let mut f = frame();
    setting_row(&mut f, 0, 64, "More", &SettingValue::Nav, 0, RowState::Normal);
    assert_eq!(f.ops[1], Op::Icon(Icon::ChevronRight, 480, 20, Ink::Black));
    let mut f = frame();
    setting_row(&mut f, 0, 64, "Size", &SettingValue::Slider(500, "50".into()), 20, RowState::Normal);
    assert_eq!(f.ops[3], fill(290 + 82, 24, 16, 16, Ink::Black));
}

#[test]
fn bars_grow_in_steps() {
    let filled = |p: u32| {
        let mut f = frame();
        stepped_bar(&mut f, Rect { x: 0, y: 0, w: 108, h: 16 }, p);
        fills(&f).iter().skip(1).map(|r| r.w).sum::<u32>()
    };
    assert_eq!(filled(0), 0);
    assert_eq!(filled(50), 5);
    assert_eq!(filled(200), 18);
    assert_eq!(filled(1_000), filled(5_000));
    assert!((0..1_000).all(|p| filled(p) <= filled(p + 1)));
}

#[test]
fn fields_carets_and_tails() {
    let mut f = frame();
    text_field(&mut f, Rect { x: 10, y: 20, w: 200, h: 40 }, "", &vec![], "Search", true);
    assert_eq!(f.ops[1], text(Face::Label, 26, Base::Mid(20, 40), "Search", None, false));
    assert_eq!(f.ops[2], fill(18, 28, 2, 24, Ink::Black));
    let mut f = frame();
    text_field(&mut f, Rect { x: 10, y: 20, w: 200, h: 40 }, "abc", &vec![30, 20, 10], "Search", true);
    assert_eq!(f.ops[1], text(Face::ListTitle, 18, Base::Mid(20, 40), "abc", None, false));
    assert_eq!(f.ops[2], fill(50, 28, 2, 24, Ink::Black));
    // What does not fit is shown by its end; the hint is for an empty text alone.
    let mut f = frame();
    text_field(&mut f, Rect { x: 10, y: 20, w: 49, h: 40 }, "abcd", &vec![40, 30, 20, 10], "Search", true);
    assert_eq!(f.ops[1], text(Face::ListTitle, 18, Base::Mid(20, 40), "cd", None, false));
    assert_eq!(f.ops[2], fill(40, 28, 2, 24, Ink::Black));
    let mut f = frame();
    text_field(&mut f, Rect { x: 10, y: 20, w: 30, h: 40 }, "abcd", &vec![40, 30, 20, 10], "Search", true);
    assert_eq!(f.ops[1], text(Face::ListTitle, 18, Base::Mid(20, 40), "", None, false));
    assert_eq!(f.ops[2], fill(20, 28, 2, 24, Ink::Black));
    assert_eq!(tail_fit("abcd", &vec![40, 30, 20, 10], 25), "cd");
    assert_eq!(tail_fit("abcd", &vec![40, 30, 20, 10], 5), "");
}

#[test]
fn heat_and_screens() {
    let r = Rect { x: 0, y: 0, w: 10, h: 10 };
    let last = |v: u8| {
        let mut f = frame();
        heat_fill(&mut f, r, v);
        f.ops.last().unwrap().clone()
    };
    assert_eq!(last(0), Op::Fill(r, Ink::White));
    assert_eq!(last(37), Op::Pattern(r, Pattern::Sparse));
    assert_eq!(last(87), Op::Pattern(r, Pattern::Dots50));
    assert_eq!(last(100), Op::Fill(r, Ink::Black));
    let mut f = frame();
    screen(&mut f, r);
    assert_eq!(f.ops, [Op::Shade(r, Shade::Screened)]);
}

#[test]
fn dialogs_stand_in_the_middle() {
    let mut f = frame();
    let card = dialog(&mut f, "Delete?", &vec!["For good.".into()], "Cancel", "Delete");
    assert_eq!(card.x * 2 + card.w as i32, 528);
    assert!(f.ops.iter().any(|o| matches!(o, Op::Text(t) if t.text == "Delete?")));
}

#[test]
fn the_battery_shows_its_charge() {
    let mut f = frame();
    status_icons(&mut f, 500, 10, Battery { percent: 40, charging: true, ..Battery::default() }, true);
    assert!(f.ops.iter().any(|o| matches!(o, Op::Icon(Icon::Battery(40), ..))));
    assert!(f.ops.iter().any(|o| matches!(o, Op::Icon(Icon::Charging, ..))));
    assert!(f.ops.iter().any(|o| matches!(o, Op::Icon(Icon::Wifi, ..))));
}

#[test]
fn covers_are_set_in_type() {
    let r = Rect { x: 0, y: 0, w: 152, h: 228 };
    assert_eq!(cover_text_width(r), 112);
    assert_eq!(cover_face(r, &vec![112, 50]), Face::Body);
    assert_eq!(cover_face(r, &vec![113]), Face::Label);
    assert_eq!(cover_face(Rect { w: 139, ..r }, &vec![]), Face::Label);
    let mut f = frame();
    typographic_cover(&mut f, r, &vec![112], &vec!["Middlemarch".into()], "Eliot");
    assert!(f.ops.iter().any(|o| matches!(o, Op::Text(t) if t.text == "Middlemarch" && t.face == Face::Body)));
    let mut f = frame();
    typographic_cover(&mut f, r, &vec![113], &vec!["Middlemarch".into()], "Eliot");
    assert!(f.ops.iter().any(|o| matches!(o, Op::Text(t) if t.text == "Middlemarch" && t.face == Face::Label)));
    assert_eq!(f.ops[1], Op::Pattern(r, Pattern::Hatch(6)));
    assert!(f.ops.iter().any(|o| matches!(o, Op::Text(t) if t.text == "Eliot")));
}

#[test]
fn the_active_tab_is_in_sight() {
    let names: Vec<Measured> = (0..8).map(|i| m(&format!("Tab {i}"), 100)).collect();
    for active in 0..8 {
        let mut f = frame();
        let end = tabs(&mut f, 10, &names, active, true, None);
        assert!(end > 10);
        let op = f.ops.iter().find_map(|o| match o {
            Op::Text(t) if t.text == format!("Tab {active}") => Some(t.x),
            _ => None,
        });
        let x = op.unwrap();
        assert!(x >= 32 && x + 100 <= 528 - 32, "tab {active} at {x}");
    }
}

#[test]
fn charts_fit_their_box() {
    let r = Rect { x: 20, y: 100, w: 400, h: 200 };
    let values = vec![3, 0, 12, 7];
    assert_eq!(tallest_text(&values, " min"), "12 min");
    let mut f = frame();
    ink_line(&mut f, r, &values, ("Mon", "Wed", "Fri"), " min", 60, None);
    assert!(fills(&f).iter().all(|q| q.x >= 20 && q.x + q.w as i32 <= 420 && q.y + q.h as i32 <= 300));
    let mut f = frame();
    step_line(&mut f, r, &values);
    assert_eq!(f.ops[0], fill(20, 298, 400, 2, Ink::Black));
    assert!(fills(&f).iter().all(|q| q.y >= 100 && q.y + q.h as i32 <= 300));
}

#[test]
fn keyboard_keys_lie_on_the_panel() {
    let k = KeyboardScreen::new("Name", "", "hint");
    let mut f = frame();
    k.draw(&mut f, "http://quire.local/type", Some(100), &vec![]);
    assert!(fills(&f).iter().all(|r| r.x >= 0 && r.x + r.w as i32 <= 528 && r.y + r.h as i32 <= 792));
    assert!(f.ops.iter().any(|o| matches!(o, Op::Text(t) if t.text == "q")));
}

#[test]
fn hidden_text_shows_its_end_alone() {
    let drawn = |t: &str| {
        let mut f = frame();
        let r = KeyboardScreen::new("Password", t, "hint").secret().draw(&mut f, "u", None, &vec![30, 20, 10]);
        assert_eq!(r, Refresh::Du);
        f.ops
    };
    assert_eq!(drawn("abc"), drawn("xyc"));
    assert_ne!(drawn("abc"), drawn("abd"));
    assert!(drawn("abc").iter().any(|o| matches!(o, Op::Text(t) if t.text == "••c")));
    // The field is 464 wide: what does not fit in 440 is cut in front.
    let mut f = frame();
    KeyboardScreen::new("Name", "abc", "hint").draw(&mut f, "u", None, &vec![441, 440, 10]);
    assert!(f.ops.iter().any(|o| matches!(o, Op::Text(t) if t.text == "bc" && t.face == Face::ListTitle)));
}

#[test]
fn the_wizard_says_what_its_pages_say() {
    let w = |page: usize| FirstRun { page, focus: 0 };
    assert_eq!((w(0).paragraph(), w(2).paragraph()), ("", ""));
    assert_eq!(w(1).paragraph(), "Set the clock so your reading stats have days. Wi-Fi sets it automatically later.");
    assert_eq!(w(3).paragraph(), "The card starts empty. Get free books from the Bookshop, or drop your own from your phone.");
    assert_eq!(DROP_TEXT, "Drop: press Up, then scan and drag books onto the page.");
    assert_eq!(tip(0), "The book is the home screen: wake and you are on your page.");
    assert_eq!(tip(TIPS - 1), "Long-press Back anywhere for Jump: everything in one list.");
    let t = WizardTexts {
        number_w: 50,
        check_w: 20,
        lines: vec![w(1).paragraph().into()],
        date: m("6 Aug 2024", 90),
        time: m("13:37", 50),
        tips: (0..TIPS).map(|i| vec![tip(i).into()]).collect(),
        start_here: Vec::new(),
        address: "quire.local".into(),
        code: None,
        hint: vec![DROP_TEXT.into()],
    };
    let shown = |page: usize| {
        let mut f = frame();
        assert_eq!(w(page).draw(&mut f, "de", &t), Refresh::Gc);
        f.ops.iter().filter_map(|o| if let Op::Text(t) = o { Some(t.text.clone()) } else { None }).collect::<Vec<_>>()
    };
    assert!(shown(0).contains(&"Choose a language for the reader.".to_string()));
    assert!(shown(1).contains(&w(1).paragraph().to_string()) && shown(1).contains(&"13:37".to_string()));
    assert!((0..TIPS).all(|i| shown(2).contains(&tip(i).to_string())));
    assert!(shown(3).contains(&"quire.local".to_string()) && shown(3).contains(&DROP_TEXT.to_string()));
}

#[test]
fn the_time_picker_draws_its_fields() {
    let mut f = frame();
    TimePicker::new(2026, 2, 8, 3, 4).draw(&mut f, "February", [60; 5]);
    let shown: Vec<&str> = f.ops.iter().filter_map(|o| if let Op::Text(t) = o { Some(t.text.as_str()) } else { None }).collect();
    for t in ["‹ 2026 ›", "‹ February ›", "‹ 08 ›", "‹ 03 ›", "‹ 04 ›"] {
        assert!(shown.contains(&t));
    }
}

#[test]
fn a_chapter_named_like_its_book_is_said_once() {
    let mut f = frame();
    reading_head(&mut f, "Emma", "Volume I", 70, 40, 500, 30);
    assert_eq!(f.ops, [caps(40, 30, "Emma", Some(366)), caps(430, 30, "Volume I", None)]);
    assert_eq!(reading_right(" Emma", "EMMA "), "");
    // However wide the chapter is, the title keeps some room.
    let mut f = frame();
    reading_head(&mut f, "Emma", "Volume I", 450, 40, 500, 30);
    assert_eq!(f.ops[0], caps(40, 30, "Emma", Some(40)));
}

#[test]
fn thumbnails_are_sampled_into_their_place() {
    let mut f = frame();
    row_thumb(&mut f, 100, None, "Emma", "Austen", Some(&m("3 h", 40)), RowState::Normal);
    let place = Rect { x: 24, y: 108, w: 48, h: 72 };
    assert_eq!(f.ops[0], fill(0, 100, 528, 88, Ink::White));
    assert_eq!(f.ops[1], Op::Pattern(place, Pattern::Hatch(6)));
    assert_eq!(f.ops[2], Op::Stroke(place, 1, Ink::Black));
    assert_eq!(f.ops[3], text(Face::Label, 464, Base::Mid(100, 88), "3 h", None, false));
    assert_eq!(f.ops[4], text(Face::ListTitle, 88, Base::At(135), "Emma", Some(360), false));
    assert_eq!(f.ops[5], text(Face::Label, 88, Base::At(167), "Austen", Some(360), false));
    // Each dot of a picture half as large is drawn four times.
    let mut bits = vec![false; 24 * 36];
    bits[24 + 2] = true;
    let mut f = frame();
    row_thumb(&mut f, 100, Some(&Bitmap { w: 24, h: 36, bits }), "Emma", "Austen", None, RowState::Focused);
    let dots: Vec<&Op<String>> = f.ops.iter().filter(|o| matches!(o, Op::Dot(..))).collect();
    assert_eq!(
        dots,
        [
            &Op::Dot(28, 110, Ink::White),
            &Op::Dot(29, 110, Ink::White),
            &Op::Dot(28, 111, Ink::White),
            &Op::Dot(29, 111, Ink::White),
        ]
    );
}

#[test]
fn covers_tell_how_far_they_are_read() {
    let r = Rect { x: 50, y: 100, w: 152, h: 228 };
    let under = |percent: Option<u8>, author: &str| {
        let mut f = frame();
        cover_cell(&mut f, 50, 100, &CoverArt::Picture(100, 200), "Emma", author, true, percent);
        assert_eq!(f.ops[0], Op::Fill(r, Ink::White));
        assert_eq!(f.ops[1], Op::Blit(76, 114));
        assert_eq!(f.ops[2], Op::Stroke(r, 6, Ink::Black));
        assert_eq!(f.ops[3], text(Face::Body, 50, Base::At(356), "Emma", Some(152), false));
        match &f.ops[4] {
            Op::Text(t) => t.text.clone(),
            o => format!("{o:?}"),
        }
    };
    assert_eq!(under(Some(42), "Austen"), "Austen · 42%");
    assert_eq!(under(Some(100), "Austen"), "Austen · finished");
    assert_eq!(under(Some(0), "Austen"), "Austen");
    assert_eq!(under(None, "Austen"), "Austen");
    assert_eq!(under(Some(7), ""), "7%");
}

#[test]
fn posters_and_tiles() {
    let mut f = frame();
    assert_eq!(poster_centered(&mut f, 264, 100, "12", "days", false), 158);
    assert_eq!(f.ops[0], centred(Face::Poster, 264, 120, "12"));
    let tiles: Vec<Tile> = [("1", 20), ("1 234 567", 190), ("3", 20)]
        .iter()
        .map(|(t, w)| Tile { value: m(t, *w), label: "pages".into() })
        .collect();
    let mut f = frame();
    assert_eq!(poster_tiles(&mut f, 32, 100, 400, &tiles, 2), 308);
    assert_eq!(f.ops[0], text(Face::Poster, 32, Base::At(144), "1", None, false));
    assert_eq!(f.ops[1], caps(32, 174, "pages", Some(192)));
    assert_eq!(f.ops[2], fill(231, 100, 2, 104, Ink::Black));
    assert_eq!(f.ops[3], fill(32, 203, 200, 2, Ink::Black));
    // A numeral that is too wide is set smaller.
    assert_eq!(f.ops[4], text(Face::Title, 252, Base::At(144), "1 234 567", None, false));
    assert_eq!(f.ops.len(), 9);
    assert_eq!(poster_tiles(&mut frame(), 32, 100, 400, &Vec::new(), 0), 100);
}

#[test]
fn cards_and_empty_states() {
    let mut f = frame();
    let card = working_card(&mut f, "Converting", "Emma", 500, "chapter 3");
    assert_eq!(card, Rect { x: 24, y: 274, w: 480, h: 196 });
    assert_eq!(f.ops[2], text(Face::Title, 52, Base::At(322), "Converting", Some(424), false));
    assert_eq!(f.ops.last(), Some(&text(Face::Mono, 52, Base::At(432), "chapter 3", Some(424), false)));
    let mut f = frame();
    empty_state(&mut f, 300, &vec!["Nothing".into(), "here".into()], &vec!["Add books".into()]);
    assert_eq!(
        f.ops,
        [
            centred(Face::Title, 264, 320, "Nothing"),
            centred(Face::Title, 264, 350, "here"),
            centred(Face::Label, 264, 392, "Add books"),
        ]
    );
}
