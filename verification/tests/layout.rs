use quire::layout::{
    Align, Family, FontChoice, Geometry, Lang, ParaStyle, Pos, Profile, Style, StyleBits, RUNNING_HEAD_H, SPINE_GUTTER, SPINE_W,
};

const PANEL_W: u32 = 528;
const PANEL_H: u32 = 792;
const SIZES: [u16; 8] = [16, 20, 22, 24, 26, 28, 32, 34];

fn geom(p: &Profile) -> Geometry {
    p.geometry(PANEL_W, PANEL_H)
}

fn bits() -> StyleBits {
    StyleBits { bold: 1, italic: 2, mono: 4, sup: 8, sub: 16 }
}

#[test]
fn geometry_reserves_spine_and_running_head() {
    let p = Profile::default();
    let g = geom(&p);
    assert_eq!(g.text.x, 32);
    assert_eq!(g.text.y, 32 + RUNNING_HEAD_H as i32);
    // 528 - 2*32 margins - 12 spine - 10 gutter
    assert_eq!(g.text.w, 528 - 64 - SPINE_W - SPINE_GUTTER);
    assert_eq!(g.line_h, 41); // 28 * 1.45, rounded
}

#[test]
fn block_gutter_and_spine_fill_the_width() {
    for margin in [16u16, 32, 48] {
        let p = Profile { margin, ..Profile::default() };
        let g = geom(&p);
        assert_eq!(g.text.x as u32 + g.text.w + SPINE_GUTTER, PANEL_W - margin as u32 - SPINE_W);
        assert_eq!(g.text.y as u32 + g.text.h, PANEL_H - margin as u32);
    }
}

#[test]
fn a_tiny_frame_keeps_a_block() {
    let g = Profile::default().geometry(10, 10);
    assert_eq!((g.text.w, g.text.h), (64, 64));
    let bare = Profile { spine: false, running_head: false, ..Profile::default() };
    assert_eq!(bare.geometry(PANEL_W, PANEL_H).text.w, 528 - 64);
    assert_eq!(bare.geometry(PANEL_W, PANEL_H).text.y, 32);
}

#[test]
fn defaults_are_the_book_style() {
    let p = Profile::default();
    assert_eq!((p.align, p.para_style, p.lang), (Align::Justify, ParaStyle::Indent, Lang::English));
    assert_eq!(Pos::start(), Pos { para: 0, word: 0, part: 0 });
}

#[test]
fn fonts_step_along_the_reading_sizes() {
    let p = Profile::default();
    assert_eq!(p.code_size(&SIZES), 26);
    assert_eq!(p.small_size(&SIZES), 24);
    assert_eq!(p.heading_font(1, &SIZES).size, 34);
    assert_eq!(p.heading_font(2, &SIZES), FontChoice { family: Family::Literata, style: Style::Bold, size: 32 });
    assert_eq!(p.font(4 | 1, bits(), &SIZES), FontChoice { family: Family::Mono, style: Style::Bold, size: 26 });
    assert_eq!(p.font(8 | 2, bits(), &SIZES), FontChoice { family: Family::Literata, style: Style::Italic, size: 24 });
    assert_eq!(p.font(3, bits(), &SIZES).style, Style::BoldItalic);
    assert_eq!(p.font(0, bits(), &SIZES).size, 28);
}

#[test]
fn steps_undo_each_other() {
    for i in 1..SIZES.len() - 1 {
        let down = Profile { size: Profile { size: SIZES[i], ..Profile::default() }.code_size(&SIZES), ..Profile::default() };
        assert_eq!(down.heading_font(2, &SIZES).size, SIZES[i]);
    }
}

#[test]
fn languages_have_their_patterns() {
    assert_eq!(Lang::from_code("en-GB"), Lang::English);
    assert_eq!(Lang::from_code("xx"), Lang::NoPatterns);
    assert!(Lang::NoPatterns.hypher().is_none());
    let en = Lang::English.hypher().unwrap();
    assert_eq!(hypher::hyphenate("extensive", en).join("-"), "ex-ten-sive");
    let de = Lang::from_code("de").hypher().unwrap();
    assert_ne!(hypher::hyphenate("Silbentrennung", de).count(), 1);
}
