//! The component library: running head, rail, side labels, rows, tiles, setting rows, dialog and
//! working cards, empty states, covers, bars.
//!
//! What depends on the width of a text takes that width with the text: the fonts are the
//! platform's.
use vstd::prelude::*;

use crate::draw::{Base, Face, Frame, Icon, Ink, Op, Pattern, Place, Rect, Shade, Sheet, TextOp};
use crate::draw::{INSET, RULE, RULE_HEAVY};
use crate::input::{Key, KeyEvent};
use crate::platform::Battery;
use crate::text;

verus! {

/// Y where content starts under a running head.
pub const CONTENT_TOP: i32 = 92;

/// Y of the running head's 4 px rule.
pub const HEAD_RULE_Y: i32 = 74;

/// Y of every empty state's serif line (one height on every screen).
pub const EMPTY_Y: i32 = 240;

/// Top of the side labels' band. One key stands either side of the screen, opposite each other.
pub const SIDE_Y: i32 = 500;

/// Top of the label beside the Up key.
pub const SIDE_UP_Y: i32 = SIDE_Y;

/// Top of the label beside the Down key.
pub const SIDE_DOWN_Y: i32 = SIDE_Y;

/// Side label box height.
pub const SIDE_H: i32 = 72;

/// How wide a side label gets before it is shortened.
pub const SIDE_TEXT_W: i32 = 100;

/// Height of a row with a thumbnail.
pub const ROW_THUMB_H: i32 = 88;

/// Width of a cover.
pub const COVER_W: u32 = 152;

/// Height of a cover.
pub const COVER_H: u32 = 228;

/// A text and the width it is drawn with.
#[derive(Clone, Debug, PartialEq, Eq)]
pub struct Measured {
    /// The text.
    pub text: String,
    /// Its width in the face it is drawn in.
    pub width: i32,
}

impl Measured {
    /// Whether the width is one that fits on a panel.
    pub open spec fn wf(self) -> bool {
        0 <= self.width <= 0x10_0000
    }
}

/// A measured text as it is seen: its characters and its width.
pub open spec fn seen(m: Option<&Measured>) -> Option<(Seq<char>, int)> {
    match m {
        Some(m) => Some((m.text@, m.width as int)),
        None => None,
    }
}

/// Half of a number, rounded towards zero.
pub open spec fn half(v: int) -> int {
    if v >= 0 {
        v / 2
    } else {
        -((-v) / 2)
    }
}

pub(crate) fn halve(v: i32) -> (r: i32)
    requires
        v > i32::MIN,
    ensures
        r == half(v as int),
{
    if v >= 0 {
        v / 2
    } else {
        -((-v) / 2)
    }
}

/// What a running head draws.
pub open spec fn running_head_ops(s: Sheet, title: Seq<char>, right: Option<(Seq<char>, int)>) -> Seq<Op<Seq<char>>> {
    let base = crate::draw::at(HEAD_RULE_Y - 8 - s.faces.title.below);
    let avail = s.w - 2 * INSET;
    let rule = crate::draw::fill(INSET as int, HEAD_RULE_Y as int, s.w - 2 * INSET, RULE_HEAVY as int, Ink::Black);
    match right {
        Some(r) => seq![
            crate::draw::ended(Face::Mono, s.w - INSET, base, r.0),
            crate::draw::plain(Face::Title, INSET as int, base, title, Some(avail - (r.1 + 20)), false),
            rule,
        ],
        None => seq![crate::draw::plain(Face::Title, INSET as int, base, title, Some(avail), false), rule],
    }
}

/// Running head for a screen: serif title, optional right-hand mono text, 4 px rule. The title
/// sits on a baseline that keeps its descenders clear of the rule.
pub fn running_head(f: &mut Frame, title: &str, right: Option<&Measured>)
    requires
        old(f).sheet.wf(),
        right matches Some(m) ==> m.wf(),
    ensures
        final(f).sheet == old(f).sheet,
        final(f)@ == old(f)@ + running_head_ops(old(f).sheet, title@, seen(right)),
{
    let w: i32 = f.width() as i32;
    let base: i32 = HEAD_RULE_Y - 8 - f.sheet.faces.title.below;
    let mut avail: i32 = w - 2 * INSET;
    if let Some(r) = right {
        f.text_ended(Face::Mono, w - INSET, Base::At(base), &r.text);
        avail = avail - (r.width + 20);
    }
    f.text(Face::Title, INSET, Base::At(base), title, Some(avail), false);
    f.fill_rect(Rect::new(INSET, HEAD_RULE_Y, (w - 2 * INSET) as u32, RULE_HEAVY), Ink::Black);
    assert(f@ =~= old(f)@ + running_head_ops(old(f).sheet, title@, seen(right)));
}

/// What the right of a reading head shows: the chapter, unless it is the book's own title.
pub open spec fn reading_right_text(left: Seq<char>, right: Seq<char>) -> Seq<char> {
    if text::ascii_lower(text::trimmed(right)) == text::ascii_lower(text::trimmed(left)) {
        Seq::empty()
    } else {
        right
    }
}

/// What the right of a reading head shows. Front matter often carries the book's own title as its
/// heading: it is said once.
pub fn reading_right(left: &str, right: &str) -> (r: String)
    ensures
        r@ == reading_right_text(left@, right@),
{
    if text::same_ignoring_case(&text::trim(right), &text::trim(left)) {
        String::new()
    } else {
        text::owned(right)
    }
}

/// What a reading head draws; `rw` is the width of its right text in small capitals.
pub open spec fn reading_head_ops(
    left: Seq<char>,
    right: Seq<char>,
    rw: int,
    text_x: int,
    text_right: int,
    baseline: int,
) -> Seq<Op<Seq<char>>> {
    let avail = text_right - text_x - rw - 24;
    seq![
        crate::draw::caps(text_x, baseline, left, Some(if avail > 40 { avail } else { 40 }), false),
        crate::draw::caps(text_right - rw, baseline, reading_right_text(left, right), None, false),
    ]
}

/// The reading page's running head: book title left, chapter right, 18 px small caps. `rw` is the
/// width of what [`reading_right`] gives, in small capitals.
pub fn reading_head(f: &mut Frame, left: &str, right: &str, rw: i32, text_x: i32, text_right: i32, baseline: i32)
    requires
        crate::draw::sane(rw as int),
        crate::draw::sane(text_x as int),
        crate::draw::sane(text_right as int),
    ensures
        final(f).sheet == old(f).sheet,
        final(f)@ == old(f)@ + reading_head_ops(
            left@,
            right@,
            rw as int,
            text_x as int,
            text_right as int,
            baseline as int,
        ),
{
    let r = reading_right(left, right);
    let avail: i32 = text_right - text_x - rw - 24;
    f.label(text_x, baseline, left, Some(if avail > 40 { avail } else { 40 }), false);
    f.label(text_right - rw, baseline, &r, None, false);
    assert(f@ =~= old(f)@ + reading_head_ops(
        left@,
        right@,
        rw as int,
        text_x as int,
        text_right as int,
        baseline as int,
    ));
}

/// Whether a rail label stands for an idle key.
pub open spec fn is_idle(label: Seq<char>) -> bool {
    label.len() == 0 || label == "—"@
}

/// What one cell of the rail draws.
pub open spec fn rail_cell_ops(s: Sheet, i: int, label: Seq<char>, inv: bool) -> Seq<Op<Seq<char>>> {
    let cell = s.w as int / 4;
    let x = i * cell;
    let top = s.h - s.theme.rail_h + RULE_HEAVY;
    let h = s.theme.rail_h - RULE_HEAVY;
    let cx = x + cell / 2;
    (if inv { seq![crate::draw::fill(x, top, cell, h, Ink::Black)] } else { Seq::empty() })
        + (if i < 3 { seq![crate::draw::fill(x + cell - 1, top, 1, h, Ink::Black)] } else { Seq::empty() })
        + seq![
        if is_idle(label) {
            crate::draw::fill(cx - 1, top + h / 2 - 1, 2, 2, if inv { Ink::White } else { Ink::Black })
        } else {
            crate::draw::centred(Face::Mono, cx, crate::draw::mid(top, h), label, Some(cell - 8), inv)
        },
    ]
}

/// What the rail draws.
pub open spec fn rail_ops(s: Sheet, labels: Seq<Seq<char>>, focused: Option<int>) -> Seq<Op<Seq<char>>> {
    let y = s.h - s.theme.rail_h;
    seq![
        crate::draw::fill(0, y, s.w as int, s.theme.rail_h as int, Ink::White),
        crate::draw::fill(0, y, s.w as int, RULE_HEAVY as int, Ink::Black),
    ] + rail_cell_ops(s, 0, labels[0], focused == Some(0int)) + rail_cell_ops(s, 1, labels[1], focused == Some(1int))
        + rail_cell_ops(s, 2, labels[2], focused == Some(2int)) + rail_cell_ops(s, 3, labels[3], focused == Some(3int))
}

fn rail_cell(f: &mut Frame, i: i32, label: &str, inv: bool)
    requires
        old(f).sheet.wf(),
        0 <= i < 4,
    ensures
        final(f).sheet == old(f).sheet,
        final(f)@ == old(f)@ + rail_cell_ops(old(f).sheet, i as int, label@, inv),
{
    let w: i32 = f.width() as i32;
    let rail_h: i32 = f.sheet.theme.rail_h;
    let cell: i32 = w / 4;
    assert(i * cell <= 3 * cell) by (nonlinear_arith)
        requires
            0 <= i < 4,
            cell >= 0,
    ;
    assert(0 <= i * cell) by (nonlinear_arith)
        requires
            0 <= i,
            cell >= 0,
    ;
    let x: i32 = i * cell;
    let top: i32 = f.height() as i32 - rail_h + RULE_HEAVY as i32;
    let h: i32 = rail_h - RULE_HEAVY as i32;
    if inv {
        f.fill_rect(Rect::new(x, top, cell as u32, h as u32), Ink::Black);
    }
    if i < 3 {
        f.fill_rect(Rect::new(x + cell - 1, top, 1, h as u32), Ink::Black);
    }
    let cx: i32 = x + cell / 2;
    if label.is_empty() || text::same(label, "—") {
        f.fill_rect(Rect::new(cx - 1, top + h / 2 - 1, 2, 2), if inv { Ink::White } else { Ink::Black });
    } else {
        f.text_centred(Face::Mono, cx, Base::Mid(top, h), label, Some(cell - 8), inv);
    }
    assert(f@ =~= old(f)@ + rail_cell_ops(old(f).sheet, i as int, label@, inv));
}

/// The edge-label rail at the bottom: four cells over the four keys.
pub fn rail(f: &mut Frame, labels: [&str; 4], focused: Option<usize>)
    requires
        old(f).sheet.wf(),
    ensures
        final(f).sheet == old(f).sheet,
        final(f)@ == old(f)@ + rail_ops(
            old(f).sheet,
            seq![labels@[0]@, labels@[1]@, labels@[2]@, labels@[3]@],
            match focused {
                Some(i) => Some(i as int),
                None => None,
            },
        ),
{
    let w: i32 = f.width() as i32;
    let rail_h: i32 = f.sheet.theme.rail_h;
    let y: i32 = f.height() as i32 - rail_h;
    f.fill_rect(Rect::new(0, y, w as u32, rail_h as u32), Ink::White);
    f.fill_rect(Rect::new(0, y, w as u32, RULE_HEAVY), Ink::Black);
    let on: usize = match focused {
        Some(i) => i,
        None => 4,
    };
    rail_cell(f, 0, labels[0], on == 0);
    rail_cell(f, 1, labels[1], on == 1);
    rail_cell(f, 2, labels[2], on == 2);
    rail_cell(f, 3, labels[3], on == 3);
    assert(f@ =~= old(f)@ + rail_ops(
        old(f).sheet,
        seq![labels@[0]@, labels@[1]@, labels@[2]@, labels@[3]@],
        match focused {
            Some(i) => Some(i as int),
            None => None,
        },
    ));
}

/// Where a side label stands: centred on `y`, kept between the running head and the rail, against
/// the edge its key is on.
pub open spec fn side_plate(s: Sheet, y: int, width: int, left: bool) -> Rect {
    let tw = width + 8;
    let th = s.faces.mono.line_h + 2;
    let lowest = s.h - s.theme.rail_h - 6 - tw;
    let wish = y - tw / 2;
    crate::draw::rect(
        if left { 10 } else { s.w - 10 - th },
        if wish < CONTENT_TOP { CONTENT_TOP as int } else if wish > lowest { lowest } else { wish },
        th,
        tw,
    )
}

/// What a side label draws.
pub open spec fn side_label_ops(s: Sheet, y: int, label: (Seq<char>, int), inverted: bool, left: bool) -> Seq<Op<Seq<char>>> {
    let r = side_plate(s, y, label.1, left);
    let up = match crate::draw::plain(
        Face::Mono,
        r.x + 1 + s.faces.mono.ascent,
        crate::draw::at(r.bottom_edge() - 5),
        label.0,
        Some(SIDE_TEXT_W as int),
        inverted,
    ) {
        Op::Text(t) => Op::Upward(t),
        o => o,
    };
    seq![
        Op::Fill(r, if inverted { Ink::Black } else { Ink::White }),
        up,
        crate::draw::fill(if left { 2 } else { s.w - 4 }, y - 12, 2, 24, Ink::Black),
    ]
}

/// Whether there is room for a side label of this width.
pub open spec fn side_fits(s: Sheet, y: int, width: int) -> bool {
    crate::draw::sane(y) && CONTENT_TOP <= s.h - s.theme.rail_h - 6 - (width + 8)
}

/// A rotated edge label beside a side key: sentence-case mono (the rail's face) reading upwards, no
/// box, with a 2 px tick on the very edge marking the key. `y` is the key's centre line, `left` the
/// edge it is on. The compass and the power menu draw their side choices through this too, so the
/// same physical key is always labelled at the same height in the same face. The width of `label` is
/// what it takes once shortened to [`SIDE_TEXT_W`].
pub fn side_label(f: &mut Frame, y: i32, left: bool, label: &Measured, inverted: bool)
    requires
        old(f).sheet.wf(),
        label.wf(),
        side_fits(old(f).sheet, y as int, label.width as int),
    ensures
        final(f).sheet == old(f).sheet,
        final(f)@ == old(f)@ + side_label_ops(
            old(f).sheet,
            y as int,
            (label.text@, label.width as int),
            inverted,
            left,
        ),
{
    let r = side_label_plate(f, y, label.width, left);
    f.fill_rect(r, if inverted { Ink::Black } else { Ink::White });
    paint_side_label(f, &label.text, r, y, inverted, left);
    assert(f@ =~= old(f)@ + side_label_ops(
        old(f).sheet,
        y as int,
        (label.text@, label.width as int),
        inverted,
        left,
    ));
}

fn side_label_plate(f: &Frame, y: i32, width: i32, left: bool) -> (r: Rect)
    requires
        f.sheet.wf(),
        0 <= width <= 0x10_0000,
        side_fits(f.sheet, y as int, width as int),
    ensures
        r == side_plate(f.sheet, y as int, width as int, left),
        r.sane(),
{
    let tw: i32 = width + 8;
    let th: i32 = f.sheet.faces.mono.line_h + 2;
    let w: i32 = f.width() as i32;
    let h: i32 = f.height() as i32;
    let x: i32 = if left { 10 } else { w - 10 - th };
    let lowest: i32 = h - f.sheet.theme.rail_h - 6 - tw;
    let wish: i32 = y - tw / 2;
    let top: i32 = if wish < CONTENT_TOP { CONTENT_TOP } else if wish > lowest { lowest } else { wish };
    Rect::new(x, top, th as u32, tw as u32)
}

fn paint_side_label(f: &mut Frame, t: &str, r: Rect, key_y: i32, inverted: bool, left: bool)
    requires
        old(f).sheet.wf(),
        r.sane(),
        crate::draw::sane(key_y as int),
    ensures
        final(f).sheet == old(f).sheet,
        final(f)@ == old(f)@.push(
            match crate::draw::plain(
                Face::Mono,
                r.x + 1 + old(f).sheet.faces.mono.ascent,
                crate::draw::at(r.bottom_edge() - 5),
                t@,
                Some(SIDE_TEXT_W as int),
                inverted,
            ) {
                Op::Text(t) => Op::Upward(t),
                o => o,
            },
        ).push(crate::draw::fill(if left { 2 } else { old(f).sheet.w - 4 }, key_y - 12, 2, 24, Ink::Black)),
{
    let w: i32 = f.width() as i32;
    let x: i32 = r.x + 1 + f.sheet.faces.mono.ascent;
    f.draw(
        Op::Upward(
            TextOp {
                face: Face::Mono,
                x,
                place: Place::Start,
                base: Base::At(r.bottom() - 5),
                text: text::owned(t),
                fit: Some(SIDE_TEXT_W),
                inverted,
                caps: false,
            },
        ),
    );
    // Tick at the edge the key is on, centred on it.
    let tick_x: i32 = if left { 2 } else { w - 4 };
    f.fill_rect(Rect::new(tick_x, key_y - 12, 2, 24), Ink::Black);
}

/// The centre line of the side keys.
pub open spec fn side_centre() -> int {
    SIDE_Y + SIDE_H / 2
}

/// What the side labels draw.
pub open spec fn side_labels_ops(
    s: Sheet,
    up: Option<(Seq<char>, int)>,
    down: Option<(Seq<char>, int)>,
) -> Seq<Op<Seq<char>>> {
    (match up {
        Some(u) => side_label_ops(s, side_centre(), u, false, true),
        None => Seq::empty(),
    }) + (match down {
        Some(d) => side_label_ops(s, side_centre(), d, false, false),
        None => Seq::empty(),
    })
}

/// Side labels beside Up and Down (only when the side keys act). `boxed` is kept for callers but the
/// labels are always drawn open; a focused side key inverts instead. One key stands either side of
/// the screen, so the labels never share an edge and cannot run into one another.
pub fn side_labels(f: &mut Frame, up: Option<&Measured>, down: Option<&Measured>, boxed: bool)
    requires
        old(f).sheet.wf(),
        up matches Some(m) ==> m.wf() && side_fits(old(f).sheet, side_centre(), m.width as int),
        down matches Some(m) ==> m.wf() && side_fits(old(f).sheet, side_centre(), m.width as int),
    ensures
        final(f).sheet == old(f).sheet,
        final(f)@ == old(f)@ + side_labels_ops(old(f).sheet, seen(up), seen(down)),
{
    let _ = boxed;
    if let Some(u) = up {
        side_label(f, SIDE_UP_Y + SIDE_H / 2, true, u, false);
    }
    if let Some(d) = down {
        side_label(f, SIDE_DOWN_Y + SIDE_H / 2, false, d, false);
    }
    assert(f@ =~= old(f)@ + side_labels_ops(old(f).sheet, seen(up), seen(down)));
}

/// State of a list row.
#[derive(Clone, Copy, Debug, PartialEq, Eq, Structural)]
pub enum RowState {
    /// Plain.
    Normal,
    /// Inverted.
    Focused,
    /// 4 px left bar.
    Selected,
    /// Under a dot screen.
    Disabled,
}

/// Ink on a row, or paper on an inverted one.
pub open spec fn row_ink(inv: bool) -> Ink {
    if inv {
        Ink::White
    } else {
        Ink::Black
    }
}

/// A row's own colour.
pub open spec fn row_paper(inv: bool) -> Ink {
    if inv {
        Ink::Black
    } else {
        Ink::White
    }
}

/// What ends a row: the bar of a selected one, the hairline, the screen of a disabled one.
pub open spec fn row_end_ops(s: Sheet, y: int, h: int, state: RowState) -> Seq<Op<Seq<char>>> {
    (if state == RowState::Selected { seq![crate::draw::fill(0, y, 4, h, Ink::Black)] } else { Seq::empty() })
        + seq![crate::draw::fill(0, y + h - 1, s.w as int, 1, Ink::Black)] + (if state == RowState::Disabled {
        seq![Op::Shade(crate::draw::rect(0, y, s.w as int, h - 1), Shade::Disabled)]
    } else {
        Seq::empty()
    })
}

fn row_end(f: &mut Frame, y: i32, h: i32, state: RowState)
    requires
        old(f).sheet.wf(),
        crate::draw::sane(y as int),
        0 < h <= 0x1_0000,
    ensures
        final(f).sheet == old(f).sheet,
        final(f)@ == old(f)@ + row_end_ops(old(f).sheet, y as int, h as int, state),
{
    let w: u32 = f.width();
    if state == RowState::Selected {
        f.fill_rect(Rect::new(0, y, 4, h as u32), Ink::Black);
    }
    f.fill_rect(Rect::new(0, y + h - 1, w, 1), Ink::Black);
    if state == RowState::Disabled {
        f.screen_rect(Rect::new(0, y, w, (h - 1) as u32), Shade::Disabled);
    }
    assert(f@ =~= old(f)@ + row_end_ops(old(f).sheet, y as int, h as int, state));
}

/// What a row draws.
pub open spec fn row_ops(
    s: Sheet,
    y: int,
    h: int,
    title: Seq<char>,
    subtitle: Option<Seq<char>>,
    value: Option<(Seq<char>, int)>,
    state: RowState,
) -> Seq<Op<Seq<char>>> {
    let inv = state == RowState::Focused;
    let pad = s.theme.row_pad as int;
    let (b, l) = (s.faces.body, s.faces.label);
    let right = match value {
        Some(v) => s.w - pad - v.1 - 16,
        None => s.w - pad,
    };
    let avail = Some(right - pad);
    let top = y + half(h - (b.ascent + b.below + 4 + l.ascent + l.below));
    seq![crate::draw::fill(0, y, s.w as int, h, row_paper(inv))] + (match value {
        Some(v) => seq![
            crate::draw::plain(Face::Mono, s.w - pad - v.1, crate::draw::mid(y, h), v.0, None, inv),
        ],
        None => Seq::empty(),
    }) + (match subtitle {
        None => seq![crate::draw::plain(Face::ListTitle, pad, crate::draw::mid(y, h), title, avail, inv)],
        Some(sub) => seq![
            crate::draw::plain(Face::Body, pad, crate::draw::at(top + b.ascent), title, avail, inv),
            crate::draw::plain(
                Face::Label,
                pad,
                crate::draw::at(top + b.ascent + b.below + 4 + l.ascent),
                sub,
                avail,
                inv,
            ),
        ],
    }) + row_end_ops(s, y, h, state)
}

/// A text as it is seen, if there is one.
pub open spec fn seen_text(t: Option<&str>) -> Option<Seq<char>> {
    match t {
        Some(s) => Some(s@),
        None => None,
    }
}

/// A list row: title (26 px, or 22 px with a subtitle), optional subtitle, right value in mono.
pub fn row(
    f: &mut Frame,
    y: i32,
    h: i32,
    title: &str,
    subtitle: Option<&str>,
    value: Option<&Measured>,
    state: RowState,
)
    requires
        old(f).sheet.wf(),
        crate::draw::sane(y as int),
        0 < h <= 0x1_0000,
        value matches Some(m) ==> m.wf(),
    ensures
        final(f).sheet == old(f).sheet,
        final(f)@ == old(f)@ + row_ops(
            old(f).sheet,
            y as int,
            h as int,
            title@,
            seen_text(subtitle),
            seen(value),
            state,
        ),
{
    let w: i32 = f.width() as i32;
    let pad: i32 = f.sheet.theme.row_pad;
    let inv = state == RowState::Focused;
    f.fill_rect(Rect::new(0, y, w as u32, h as u32), if inv { Ink::Black } else { Ink::White });
    let mut right: i32 = w - pad;
    if let Some(v) = value {
        f.text(Face::Mono, w - pad - v.width, Base::Mid(y, h), &v.text, None, inv);
        right = w - pad - v.width - 16;
    }
    let avail: i32 = right - pad;
    match subtitle {
        None => {
            f.text(Face::ListTitle, pad, Base::Mid(y, h), title, Some(avail), inv);
        },
        Some(sub) => {
            let b = f.sheet.faces.body;
            let l = f.sheet.faces.label;
            let total: i32 = b.ascent + b.below + 4 + l.ascent + l.below;
            let top: i32 = y + halve(h - total);
            f.text(Face::Body, pad, Base::At(top + b.ascent), title, Some(avail), inv);
            f.text(Face::Label, pad, Base::At(top + b.ascent + b.below + 4 + l.ascent), sub, Some(avail), inv);
        },
    }
    row_end(f, y, h, state);
    assert(f@ =~= old(f)@ + row_ops(
        old(f).sheet,
        y as int,
        h as int,
        title@,
        seen_text(subtitle),
        seen(value),
        state,
    ));
}

/// A one-bit picture, row by row.
#[derive(Clone, Debug, PartialEq, Eq)]
pub struct Bitmap {
    /// Width.
    pub w: u32,
    /// Height.
    pub h: u32,
    /// Inked or not.
    pub bits: Vec<bool>,
}

impl Bitmap {
    /// Whether there is one bit for each dot.
    pub open spec fn wf(self) -> bool {
        0 < self.w <= 0x1000 && 0 < self.h <= 0x1000 && self.bits@.len() == self.w * self.h
    }

    /// Whether a dot is inked.
    pub open spec fn dot(self, x: int, y: int) -> bool {
        self.bits@[y * self.w + x]
    }

    /// Whether a dot is inked.
    pub fn get(&self, x: u32, y: u32) -> (r: bool)
        requires
            self.wf(),
            x < self.w,
            y < self.h,
        ensures
            r == self.dot(x as int, y as int),
    {
        let (w, h) = (self.w, self.h);
        assert(y * w + x < w * h && 0 <= y * w <= 0xfff * 0x1000) by (nonlinear_arith)
            requires
                0 <= x < w <= 0x1000,
                0 <= y < h <= 0x1000,
        ;
        let i: u32 = y * w + x;
        self.bits[i as usize]
    }
}

/// Whether dot `k` of a thumbnail (48 × 72, row by row) is inked: the picture is sampled to the
/// nearest dot.
pub open spec fn thumb_dot(bm: Bitmap, k: int) -> bool {
    bm.dot((k % 48) * bm.w / 48, (k / 48) * bm.h / 72)
}

/// The first `n` dots of a thumbnail at `(x, y)`.
pub open spec fn thumb_ops(bm: Bitmap, x: int, y: int, ink: Ink, n: int) -> Seq<Op<Seq<char>>>
    decreases n,
{
    if n <= 0 {
        Seq::empty()
    } else if thumb_dot(bm, n - 1) {
        thumb_ops(bm, x, y, ink, n - 1).push(Op::Dot((x + (n - 1) % 48) as i32, (y + (n - 1) / 48) as i32, ink))
    } else {
        thumb_ops(bm, x, y, ink, n - 1)
    }
}

fn thumb(f: &mut Frame, bm: &Bitmap, x: i32, y: i32, ink: Ink)
    requires
        bm.wf(),
        crate::draw::sane(x as int),
        crate::draw::sane(y as int),
    ensures
        final(f).sheet == old(f).sheet,
        final(f)@ == old(f)@ + thumb_ops(*bm, x as int, y as int, ink, 3456),
{
    let mut k: i32 = 0;
    assert(f@ =~= old(f)@ + thumb_ops(*bm, x as int, y as int, ink, 0));
    while k < 3456
        invariant
            0 <= k <= 3456,
            bm.wf(),
            crate::draw::sane(x as int),
            crate::draw::sane(y as int),
            f.sheet == old(f).sheet,
            f@ == old(f)@ + thumb_ops(*bm, x as int, y as int, ink, k as int),
        decreases 3456 - k,
    {
        let xx: i32 = k % 48;
        let yy: i32 = k / 48;
        let (w, h) = (bm.w, bm.h);
        assert(xx * w <= 47 * w && 0 <= xx * w) by (nonlinear_arith)
            requires
                0 <= xx <= 47,
                w >= 0,
        ;
        assert(yy * h <= 71 * h && 0 <= yy * h) by (nonlinear_arith)
            requires
                0 <= yy <= 71,
                h >= 0,
        ;
        let sx: u32 = (xx as u32 * w) / 48;
        let sy: u32 = (yy as u32 * h) / 72;
        if bm.get(sx, sy) {
            f.draw(Op::Dot(x + xx, y + yy, ink));
        }
        assert(f@ =~= old(f)@ + thumb_ops(*bm, x as int, y as int, ink, k + 1));
        k += 1;
    }
}

/// What a row with a thumbnail draws.
pub open spec fn row_thumb_ops(
    s: Sheet,
    y: int,
    picture: Option<Bitmap>,
    title: Seq<char>,
    subtitle: Seq<char>,
    value: Option<(Seq<char>, int)>,
    state: RowState,
) -> Seq<Op<Seq<char>>> {
    let inv = state == RowState::Focused;
    let pad = s.theme.row_pad as int;
    let (t, l) = (s.faces.list_title, s.faces.label);
    let tr = crate::draw::rect(pad, y + 8, 48, 72);
    let right = match value {
        Some(v) => s.w - pad - v.1 - 16,
        None => s.w - pad,
    };
    let x = pad + 48 + 16;
    let top = y + half(ROW_THUMB_H - (t.ascent + t.below + 6 + l.ascent + l.below));
    seq![crate::draw::fill(0, y, s.w as int, ROW_THUMB_H as int, row_paper(inv))] + (match picture {
        Some(bm) => thumb_ops(bm, pad, y + 8, row_ink(inv), 3456),
        None => seq![Op::Pattern(tr, Pattern::Hatch(6))],
    }) + seq![Op::Stroke(tr, 1, row_ink(inv))] + (match value {
        Some(v) => seq![
            crate::draw::plain(Face::Label, s.w - pad - v.1, crate::draw::mid(y, ROW_THUMB_H as int), v.0, None, inv),
        ],
        None => Seq::empty(),
    }) + seq![
        crate::draw::plain(Face::ListTitle, x, crate::draw::at(top + t.ascent), title, Some(right - x), inv),
        crate::draw::plain(
            Face::Label,
            x,
            crate::draw::at(top + t.ascent + t.below + 6 + l.ascent),
            subtitle,
            Some(right - x),
            inv,
        ),
    ] + row_end_ops(s, y, ROW_THUMB_H as int, state)
}

/// A picture as it is seen, if there is one.
pub open spec fn seen_bitmap(b: Option<&Bitmap>) -> Option<Bitmap> {
    match b {
        Some(b) => Some(*b),
        None => None,
    }
}

/// A row with a thumbnail (88 px): thumb 48 × 72 at the left.
pub fn row_thumb(
    f: &mut Frame,
    y: i32,
    picture: Option<&Bitmap>,
    title: &str,
    subtitle: &str,
    value: Option<&Measured>,
    state: RowState,
)
    requires
        old(f).sheet.wf(),
        crate::draw::sane(y as int),
        y <= crate::draw::FAR - 8,
        picture matches Some(b) ==> b.wf(),
        value matches Some(m) ==> m.wf(),
    ensures
        final(f).sheet == old(f).sheet,
        final(f)@ == old(f)@ + row_thumb_ops(
            old(f).sheet,
            y as int,
            seen_bitmap(picture),
            title@,
            subtitle@,
            seen(value),
            state,
        ),
{
    let w: i32 = f.width() as i32;
    let pad: i32 = f.sheet.theme.row_pad;
    let h: i32 = ROW_THUMB_H;
    let inv = state == RowState::Focused;
    let ink = if inv { Ink::White } else { Ink::Black };
    f.fill_rect(Rect::new(0, y, w as u32, h as u32), if inv { Ink::Black } else { Ink::White });
    let tr = Rect::new(pad, y + 8, 48, 72);
    match picture {
        // Fit the thumbnail into 48 × 72 by nearest-neighbour sampling.
        Some(bm) => thumb(f, bm, pad, y + 8, ink),
        None => f.pattern_rect(tr, Pattern::Hatch(6)),
    }
    f.stroke_rect(tr, 1, ink);
    let mut right: i32 = w - pad;
    if let Some(v) = value {
        f.text(Face::Label, w - pad - v.width, Base::Mid(y, h), &v.text, None, inv);
        right = w - pad - v.width - 16;
    }
    let x: i32 = pad + 48 + 16;
    let t = f.sheet.faces.list_title;
    let l = f.sheet.faces.label;
    let top: i32 = y + halve(h - (t.ascent + t.below + 6 + l.ascent + l.below));
    f.text(Face::ListTitle, x, Base::At(top + t.ascent), title, Some(right - x), inv);
    f.text(Face::Label, x, Base::At(top + t.ascent + t.below + 6 + l.ascent), subtitle, Some(right - x), inv);
    row_end(f, y, h, state);
    assert(f@ =~= old(f)@ + row_thumb_ops(
        old(f).sheet,
        y as int,
        seen_bitmap(picture),
        title@,
        subtitle@,
        seen(value),
        state,
    ));
}

/// Height of a section label.
pub const SECTION_H: i32 = 32;

/// What a section label draws.
pub open spec fn section_label_ops(s: Sheet, y: int, t: Seq<char>) -> Seq<Op<Seq<char>>> {
    seq![
        crate::draw::caps(s.theme.row_pad as int, y + 22, t, None, false),
        crate::draw::fill(0, y + SECTION_H - 1, s.w as int, 1, Ink::Black),
    ]
}

/// A section label row (18 px small caps) with a hairline beneath. Returns where the next row
/// starts.
pub fn section_label(f: &mut Frame, y: i32, t: &str) -> (r: i32)
    requires
        old(f).sheet.wf(),
        crate::draw::sane(y as int),
    ensures
        r == y + SECTION_H,
        final(f).sheet == old(f).sheet,
        final(f)@ == old(f)@ + section_label_ops(old(f).sheet, y as int, t@),
{
    let pad: i32 = f.sheet.theme.row_pad;
    f.label(pad, y + 22, t, None, false);
    let w: u32 = f.width();
    f.fill_rect(Rect::new(0, y + SECTION_H - 1, w, 1), Ink::Black);
    assert(f@ =~= old(f)@ + section_label_ops(old(f).sheet, y as int, t@));
    y + SECTION_H
}

/// Paged focus over `n` items with `per_page` rows.
#[derive(Clone, Copy, Debug, PartialEq, Eq, Structural)]
pub struct ListNav {
    /// Focused index.
    pub focus: usize,
    /// Items.
    pub n: usize,
    /// Rows per page.
    pub per_page: usize,
}

impl Default for ListNav {
    fn default() -> (r: Self)
        ensures
            r == (ListNav { focus: 0, n: 0, per_page: 0 }),
    {
        ListNav { focus: 0, n: 0, per_page: 0 }
    }
}

impl ListNav {
    /// Whether the focus is on an item, if there is one, and a page holds a row.
    pub open spec fn wf(self) -> bool {
        &&& self.per_page > 0
        &&& self.n + self.per_page <= usize::MAX
        &&& self.focus < self.n || self.focus == 0
    }

    /// The page an item is on.
    pub open spec fn page_of(self) -> int {
        self.focus as int / self.per_page as int
    }

    /// How many pages there are; one at least.
    pub open spec fn page_count(self) -> int {
        if self.n == 0 {
            1
        } else {
            (self.n - 1) / self.per_page as int + 1
        }
    }

    /// Where the focus goes on a key.
    pub open spec fn moved(self, key: Key) -> int {
        match key {
            Key::Up => if self.focus == 0 {
                self.n - 1
            } else {
                self.focus - 1
            },
            Key::Down => (self.focus + 1) % self.n as int,
            Key::Left => if self.page_of() == 0 {
                (self.page_count() - 1) * self.per_page
            } else {
                self.focus - self.per_page
            },
            Key::Right => if self.page_of() + 1 >= self.page_count() {
                0
            } else if self.focus + self.per_page < self.n {
                self.focus + self.per_page
            } else {
                self.n - 1
            },
            _ => self.focus as int,
        }
    }

    /// Whether a key can be applied: paging needs a row on a page, and no sum may leave the machine's
    /// numbers.
    pub open spec fn takes(self, key: Key) -> bool {
        self.n == 0 || match key {
            Key::Down => self.focus < usize::MAX,
            Key::Left => self.per_page > 0,
            Key::Right => self.per_page > 0 && (self.page_of() + 1 < self.page_count() ==> self.focus + self.per_page
                <= usize::MAX),
            _ => true,
        }
    }

    /// New.
    pub fn new(n: usize, per_page: usize) -> (r: Self)
        ensures
            r.focus == 0,
            r.n == n,
            r.per_page == if per_page > 1 {
                per_page
            } else {
                1
            },
    {
        ListNav { focus: 0, n, per_page: if per_page > 1 { per_page } else { 1 } }
    }

    /// Current page.
    pub fn page(&self) -> (r: usize)
        requires
            self.per_page > 0,
        ensures
            r == self.page_of(),
    {
        self.focus / self.per_page
    }

    /// Pages.
    pub fn pages(&self) -> (r: usize)
        requires
            self.per_page > 0,
        ensures
            r == self.page_count(),
    {
        if self.n == 0 {
            return 1;
        }
        proof {
            let (a, b) = ((self.n - 1) as int, self.per_page as int);
            assert(a / b <= a) by (nonlinear_arith)
                requires
                    a >= 0,
                    b > 0,
            ;
        }
        (self.n - 1) / self.per_page + 1
    }

    /// Indexes on the current page.
    pub fn visible(&self) -> (r: core::ops::Range<usize>)
        requires
            self.per_page > 0,
            self.page_of() * self.per_page + self.per_page <= usize::MAX,
        ensures
            r.start == self.page_of() * self.per_page,
            r.end == if self.page_of() * self.per_page + self.per_page < self.n {
                self.page_of() * self.per_page + self.per_page
            } else {
                self.n as int
            },
            self.focus < self.n ==> r.start <= self.focus < r.end,
    {
        proof {
            lemma_page(self.focus as int, self.per_page as int);
        }
        let s: usize = self.page() * self.per_page;
        let e: usize = s + self.per_page;
        s..(if e < self.n { e } else { self.n })
    }

    /// Apply a key: Up/Down move focus, Left/Right page. Returns true when handled.
    pub fn key(&mut self, ev: KeyEvent) -> (r: bool)
        requires
            old(self).takes(ev.key),
        ensures
            r == (ev.key == Key::Up || ev.key == Key::Down || ev.key == Key::Left || ev.key == Key::Right),
            old(self).wf() ==> final(self).wf(),
            final(self).n == old(self).n,
            final(self).per_page == old(self).per_page,
            final(self).focus == if old(self).n == 0 {
                old(self).focus as int
            } else {
                old(self).moved(ev.key)
            },
    {
        if self.n == 0 {
            return ev.key == Key::Up || ev.key == Key::Down || ev.key == Key::Left || ev.key == Key::Right;
        }
        proof {
            if self.per_page > 0 {
                lemma_page(self.focus as int, self.per_page as int);
                lemma_page(self.n - 1, self.per_page as int);
            }
        }
        match ev.key {
            Key::Up => {
                self.focus = if self.focus == 0 { self.n - 1 } else { self.focus - 1 };
            },
            Key::Down => {
                self.focus = (self.focus + 1) % self.n;
            },
            Key::Left => {
                if self.page() == 0 {
                    self.focus = (self.pages() - 1) * self.per_page;
                } else {
                    proof {
                        let (p, b) = (self.page_of(), self.per_page as int);
                        assert(p * b >= b) by (nonlinear_arith)
                            requires
                                p >= 1,
                                b > 0,
                        ;
                    }
                    self.focus = self.focus - self.per_page;
                }
            },
            Key::Right => {
                if self.page() >= self.pages() - 1 {
                    self.focus = 0;
                } else {
                    let next: usize = self.focus + self.per_page;
                    self.focus = if next < self.n { next } else { self.n - 1 };
                }
            },
            _ => {
                return false;
            },
        }
        true
    }

    /// Clamp after the item count changed.
    pub fn set_n(&mut self, n: usize)
        ensures
            *final(self) == resized(*old(self), n),
            final(self).n == n,
            final(self).per_page == old(self).per_page,
            final(self).focus == if n == 0 {
                0
            } else if old(self).focus >= n {
                n - 1
            } else {
                old(self).focus as int
            },
    {
        self.n = n;
        if n == 0 {
            self.focus = 0;
        } else if self.focus >= n {
            self.focus = n - 1;
        }
    }
}

proof fn lemma_page(i: int, per: int)
    requires
        i >= 0,
        per > 0,
    ensures
        0 <= i / per <= i,
        0 <= (i / per) * per <= i < (i / per) * per + per,
{
    assert(0 <= i / per <= i && 0 <= (i / per) * per <= i < (i / per) * per + per) by (nonlinear_arith)
        requires
            i >= 0,
            per > 0,
    ;
}

/// Down undoes Up and Up undoes Down, all round the list.
pub proof fn law_up_and_down_undo_each_other(nav: ListNav)
    requires
        nav.wf(),
        nav.n > 0,
    ensures
        (ListNav { focus: nav.moved(Key::Up) as usize, ..nav }).moved(Key::Down) == nav.focus,
        (ListNav { focus: nav.moved(Key::Down) as usize, ..nav }).moved(Key::Up) == nav.focus,
{
    let n = nav.n as int;
    vstd::arithmetic::div_mod::lemma_mod_self_0(n);
    vstd::arithmetic::div_mod::lemma_small_mod(nav.focus as nat, n as nat);
    if nav.focus + 1 < n {
        vstd::arithmetic::div_mod::lemma_small_mod((nav.focus + 1) as nat, n as nat);
    }
}

/// No key takes the focus off the items.
pub proof fn law_focus_stays_on_the_items(nav: ListNav, key: Key)
    requires
        nav.wf(),
        nav.n > 0,
    ensures
        nav.takes(key),
        0 <= nav.moved(key) < nav.n,
{
    lemma_page(nav.focus as int, nav.per_page as int);
    lemma_page(nav.n - 1, nav.per_page as int);
    let (p, b) = (nav.page_of(), nav.per_page as int);
    if p >= 1 {
        assert(p * b >= b) by (nonlinear_arith)
            requires
                p >= 1,
                b > 0,
        ;
    }
}

/// Paging right from a page that is not the last shows the next page.
pub proof fn law_right_turns_one_page(nav: ListNav)
    requires
        nav.wf(),
        nav.page_of() + 1 < nav.page_count(),
    ensures
        (ListNav { focus: nav.moved(Key::Right) as usize, ..nav }).page_of() == nav.page_of() + 1,
{
    let (i, per, n) = (nav.focus as int, nav.per_page as int, nav.n as int);
    lemma_page(i, per);
    lemma_page(n - 1, per);
    let p = i / per;
    let q = (n - 1) / per;
    assert((p + 1) * per <= q * per) by (nonlinear_arith)
        requires
            p + 1 <= q,
            per > 0,
    ;
    let next = nav.moved(Key::Right);
    assert(p * per + per <= next < p * per + 2 * per) by (nonlinear_arith)
        requires
            next == if i + per < n { i + per } else { n - 1 },
            p * per <= i < p * per + per,
            (p + 1) * per <= n - 1,
    ;
    assert(next / per == p + 1) by (nonlinear_arith)
        requires
            p * per + per <= next < p * per + 2 * per,
            per > 0,
    ;
}

/// A quotient rounded towards zero.
pub open spec fn quotient(a: int, b: int) -> int {
    if a >= 0 && b > 0 {
        a / b
    } else if a < 0 && b < 0 {
        (-a) / (-b)
    } else if a < 0 {
        -((-a) / b)
    } else {
        -(a / (-b))
    }
}

/// Rows that fit between `top` and the rail; one at least.
pub fn rows_between(top: i32, bottom: i32, row_h: i32) -> (r: usize)
    requires
        row_h != 0,
        i32::MIN <= bottom - top <= i32::MAX,
        !(bottom - top == i32::MIN && row_h == -1),
    ensures
        r == if quotient(bottom - top, row_h as int) > 1 {
            quotient(bottom - top, row_h as int)
        } else {
            1
        },
{
    let a: i64 = (bottom - top) as i64;
    let b: i64 = row_h as i64;
    let ghost (m, n) = (if a < 0 { -a } else { a as int }, if b < 0 { -b } else { b as int });
    assert(0 <= m / n <= m) by (nonlinear_arith)
        requires
            m >= 0,
            n > 0,
    ;
    let q: i64 = if a >= 0 && b > 0 {
        a / b
    } else if a < 0 && b < 0 {
        (-a) / (-b)
    } else {
        0
    };
    if q > 1 {
        q as usize
    } else {
        1
    }
}

/// The rows fit, and one more would not; where not even one fits there is one all the same.
pub proof fn law_rows_fit(top: int, bottom: int, row_h: int)
    requires
        row_h > 0,
    ensures
        ({
            let q = quotient(bottom - top, row_h);
            let rows = if q > 1 { q } else { 1 };
            &&& rows >= 1
            &&& bottom - top >= row_h ==> rows * row_h <= bottom - top < (rows + 1) * row_h
            &&& bottom - top < row_h ==> rows == 1
        }),
{
    let a = bottom - top;
    if a >= 0 {
        assert((a / row_h) * row_h <= a < (a / row_h + 1) * row_h && (a >= row_h ==> a / row_h >= 1) && (a < row_h ==> a
            / row_h == 0)) by (nonlinear_arith)
            requires
                a >= 0,
                row_h > 0,
        ;
    } else {
        assert((-a) / row_h >= 0) by (nonlinear_arith)
            requires
                a < 0,
                row_h > 0,
        ;
    }
}

/// Lines of text one under the other, centred.
pub open spec fn centred_lines(face: Face, cx: int, y: int, line_h: int, lines: Seq<Seq<char>>, n: int) -> Seq<Op<Seq<char>>>
    decreases n,
{
    if n <= 0 {
        Seq::empty()
    } else {
        centred_lines(face, cx, y, line_h, lines, n - 1).push(
            crate::draw::centred(face, cx, crate::draw::at(y + (n - 1) * line_h), lines[n - 1], None, false),
        )
    }
}

/// Lines of text one under the other.
pub open spec fn plain_lines(face: Face, x: int, y: int, line_h: int, lines: Seq<Seq<char>>, n: int) -> Seq<Op<Seq<char>>>
    decreases n,
{
    if n <= 0 {
        Seq::empty()
    } else {
        plain_lines(face, x, y, line_h, lines, n - 1).push(
            crate::draw::plain(face, x, crate::draw::at(y + (n - 1) * line_h), lines[n - 1], None, false),
        )
    }
}

/// How many lines a paragraph on a panel has at most.
pub const MAX_LINES: usize = 0x1000;

pub(crate) fn draw_centred_lines(f: &mut Frame, face: Face, cx: i32, y: i32, line_h: i32, lines: &Vec<String>)
    requires
        lines@.len() <= MAX_LINES,
        0 <= line_h <= 0x1000,
        -0x400_0000 <= y <= 0x400_0000,
    ensures
        final(f).sheet == old(f).sheet,
        final(f)@ == old(f)@ + centred_lines(
            face,
            cx as int,
            y as int,
            line_h as int,
            text::texts(lines@),
            lines@.len() as int,
        ),
{
    let ghost ls = text::texts(lines@);
    let mut i: usize = 0;
    let mut yy: i32 = y;
    assert(f@ =~= old(f)@ + centred_lines(face, cx as int, y as int, line_h as int, ls, 0));
    while i < lines.len()
        invariant
            i <= lines@.len() <= MAX_LINES,
            0 <= line_h <= 0x1000,
            -0x400_0000 <= y <= 0x400_0000,
            yy == y + i * line_h,
            ls == text::texts(lines@),
            f.sheet == old(f).sheet,
            f@ == old(f)@ + centred_lines(face, cx as int, y as int, line_h as int, ls, i as int),
        decreases lines@.len() - i,
    {
        assert(i * line_h + line_h == (i + 1) * line_h && i * line_h <= 0x1000 * 0x1000) by (nonlinear_arith)
            requires
                0 <= i <= 0x1000,
                0 <= line_h <= 0x1000,
        ;
        f.text_centred(face, cx, Base::At(yy), &lines[i], None, false);
        assert(f@ =~= old(f)@ + centred_lines(face, cx as int, y as int, line_h as int, ls, i + 1));
        yy = yy + line_h;
        i += 1;
    }
}

pub(crate) fn draw_lines(f: &mut Frame, face: Face, x: i32, y: i32, line_h: i32, lines: &Vec<String>)
    requires
        lines@.len() <= MAX_LINES,
        0 <= line_h <= 0x1000,
        -0x400_0000 <= y <= 0x400_0000,
    ensures
        final(f).sheet == old(f).sheet,
        final(f)@ == old(f)@ + plain_lines(
            face,
            x as int,
            y as int,
            line_h as int,
            text::texts(lines@),
            lines@.len() as int,
        ),
{
    let ghost ls = text::texts(lines@);
    let mut i: usize = 0;
    let mut yy: i32 = y;
    assert(f@ =~= old(f)@ + plain_lines(face, x as int, y as int, line_h as int, ls, 0));
    while i < lines.len()
        invariant
            i <= lines@.len() <= MAX_LINES,
            0 <= line_h <= 0x1000,
            -0x400_0000 <= y <= 0x400_0000,
            yy == y + i * line_h,
            ls == text::texts(lines@),
            f.sheet == old(f).sheet,
            f@ == old(f)@ + plain_lines(face, x as int, y as int, line_h as int, ls, i as int),
        decreases lines@.len() - i,
    {
        assert(i * line_h + line_h == (i + 1) * line_h && i * line_h <= 0x1000 * 0x1000) by (nonlinear_arith)
            requires
                0 <= i <= 0x1000,
                0 <= line_h <= 0x1000,
        ;
        f.text(face, x, Base::At(yy), &lines[i], None, false);
        assert(f@ =~= old(f)@ + plain_lines(face, x as int, y as int, line_h as int, ls, i + 1));
        yy = yy + line_h;
        i += 1;
    }
}

/// How far `n` lines reach.
pub(crate) fn lines_h(n: usize, line_h: i32) -> (r: i32)
    requires
        n <= MAX_LINES,
        0 <= line_h <= 0x1000,
    ensures
        r == n * line_h,
        0 <= r <= crate::draw::FAR,
{
    assert(0 <= n * line_h <= 0x1000 * 0x1000) by (nonlinear_arith)
        requires
            0 <= n <= 0x1000,
            0 <= line_h <= 0x1000,
    ;
    n as i32 * line_h
}

/// Space around a typographic cover's plate and inside it: a small cell keeps its plate close to the
/// hatch edge so a nine-letter word still fits on one line in the label face.
pub open spec fn cover_pad(r: Rect) -> int {
    if r.w < 140 {
        4
    } else {
        10
    }
}

/// The width a typographic cover's title is wrapped to.
pub open spec fn cover_text_w(r: Rect) -> int {
    r.w - 4 * cover_pad(r)
}

/// The width a typographic cover's title is wrapped to.
pub fn cover_text_width(r: Rect) -> (w: i32)
    requires
        r.sane(),
    ensures
        w == cover_text_w(r),
{
    let pad: i32 = if r.w < 140 { 4 } else { 10 };
    r.w as i32 - 4 * pad
}

/// The face a typographic cover's title is set in: body text in a full cover, the label face in a
/// small one or where a word is too wide.
pub open spec fn title_face(r: Rect, words: Seq<i32>) -> Face {
    if r.w < 140 || exists|i: int| 0 <= i < words.len() && #[trigger] words[i] > cover_text_w(r) {
        Face::Label
    } else {
        Face::Body
    }
}

/// The face a typographic cover's title is set in: body text in a full cover, the label face in a
/// small one or where a word is too wide. `words` are the widths of the title's words in body text.
pub fn cover_face(r: Rect, words: &Vec<i32>) -> (face: Face)
    requires
        r.sane(),
    ensures
        face == title_face(r, words@),
{
    if r.w < 140 {
        return Face::Label;
    }
    let tw: i32 = cover_text_width(r);
    let mut i: usize = 0;
    while i < words.len()
        invariant
            i <= words@.len(),
            tw == cover_text_w(r),
            forall|j: int| 0 <= j < i ==> #[trigger] words@[j] <= tw,
        decreases words@.len() - i,
    {
        if words[i] > tw {
            return Face::Label;
        }
        i += 1;
    }
    Face::Body
}

/// What is left for lines on a cover's plate.
#[verifier::opaque]
pub open spec fn cover_room(r: Rect) -> int {
    let pad = cover_pad(r);
    r.bottom_edge() - pad - cover_top(r) - 2 * pad
}

/// The top of a cover's plate.
#[verifier::opaque]
pub open spec fn cover_top(r: Rect) -> int {
    let sixth = r.h as int / 6;
    let low = if sixth < 40 { sixth } else { 40 };
    r.y + (if low > cover_pad(r) { low } else { cover_pad(r) })
}

/// How many lines of this height fit in a room: one at least, four at most.
#[verifier::opaque]
pub open spec fn cover_lines(room: int, lh: int) -> int {
    let n = if room < 0 { 0 } else { room / lh };
    if n < 1 {
        1
    } else if n > 4 {
        4
    } else {
        n
    }
}

/// How a typographic cover is laid out.
#[derive(Clone, Copy, Debug, PartialEq, Eq, Structural)]
pub struct CoverPlan {
    /// Lines shown.
    pub n: usize,
    /// Whether more lines were wanted: the last one shown then ends in an ellipsis.
    pub cut: bool,
    /// Whether there is room for the author.
    pub with_author: bool,
    /// The plate.
    pub plate: Rect,
    /// The plate's centre.
    pub cx: i32,
    /// The first line's baseline.
    pub first: i32,
    /// The last line's baseline.
    pub last: i32,
    /// The author's baseline.
    pub author: i32,
}

/// How a typographic cover with `count` lines in `face` is laid out: lines that fit with the author;
/// otherwise without it; never fewer than one.
#[verifier::opaque]
pub open spec fn cover_plan(s: Sheet, r: Rect, face: Face, count: int, has_author: bool) -> CoverPlan {
    let pad = cover_pad(r);
    let m = if face == Face::Body { s.faces.body } else { s.faces.label };
    let lh = m.line_h as int;
    let room = cover_room(r);
    let author_h = if has_author { 6 + s.faces.label.line_h as int } else { 0 };
    let wants = has_author && room - author_h >= lh;
    let most = cover_lines(if wants { room - author_h } else { room }, lh);
    let cut = count > most;
    let n = if cut { most } else { count };
    let with_author = wants && n * lh + author_h <= room;
    let top = cover_top(r);
    let plate_w = r.w - 2 * pad;
    CoverPlan {
        n: n as usize,
        cut,
        with_author,
        plate: crate::draw::rect(
            r.x + pad,
            top,
            plate_w,
            2 * pad + n * lh + (if with_author { author_h } else { 0 }),
        ),
        cx: (r.x + pad + plate_w / 2) as i32,
        first: (top + pad + m.ascent) as i32,
        last: (top + pad + m.ascent + (n - 1) * lh) as i32,
        author: (top + pad + n * lh + 6 + s.faces.label.ascent) as i32,
    }
}

fn fit_lines(room: i32, lh: i32) -> (r: i32)
    requires
        0 < lh,
    ensures
        r == cover_lines(room as int, lh as int),
        1 <= r <= 4,
{
    reveal(cover_lines);
    let n: i32 = if room < 0 { 0 } else { room / lh };
    if n < 1 {
        1
    } else if n > 4 {
        4
    } else {
        n
    }
}

fn plate_top(r: Rect) -> (top: i32)
    requires
        r.sane(),
    ensures
        top == cover_top(r),
        r.y <= top <= r.y + 40,
{
    let pad: i32 = if r.w < 140 { 4 } else { 10 };
    reveal(cover_top);
    let sixth: i32 = r.h as i32 / 6;
    let low: i32 = if sixth < 40 { sixth } else { 40 };
    r.y + (if low > pad { low } else { pad })
}

fn plate_room(r: Rect) -> (room: i32)
    requires
        r.sane(),
    ensures
        room == cover_room(r),
        -0x100 <= room <= crate::draw::FAR,
{
    let pad: i32 = if r.w < 140 { 4 } else { 10 };
    reveal(cover_room);
    r.bottom() - pad - plate_top(r) - 2 * pad
}

fn plan_cover(s: &Sheet, r: Rect, face: Face, count: usize, has_author: bool) -> (p: CoverPlan)
    requires
        s.wf(),
        r.sane(),
        2 * cover_pad(r) <= r.w,
        count <= MAX_LINES,
    ensures
        p == cover_plan(*s, r, face, count as int, has_author),
        p.n <= count,
        p.cut ==> 1 <= p.n < count,
        !p.cut ==> p.n == count,
        -0x400_0000 <= p.first <= 0x400_0000,
{
    let pad: i32 = if r.w < 140 { 4 } else { 10 };
    let plate_w: i32 = r.w as i32 - 2 * pad;
    let m = if face == Face::Body { s.faces.body } else { s.faces.label };
    let l = s.faces.label;
    let lh: i32 = m.line_h;
    let top: i32 = plate_top(r);
    let room: i32 = plate_room(r);
    let author_h: i32 = if has_author { 6 + l.line_h } else { 0 };
    let wants = has_author && room - author_h >= lh;
    let space: i32 = if wants { room - author_h } else { room };
    let most: i32 = fit_lines(space, lh);
    let cut = count > most as usize;
    let n: usize = if cut { most as usize } else { count };
    let text_h: i32 = lines_h(n, lh);
    let with_author = wants && text_h + author_h <= room;
    let ph: i32 = 2 * pad + text_h + (if with_author { author_h } else { 0 });
    let plate = Rect::new(r.x + pad, top, plate_w as u32, ph as u32);
    let first: i32 = top + pad + m.ascent;
    assert((n - 1) * lh == n * lh - lh) by (nonlinear_arith);
    let p = CoverPlan {
        n,
        cut,
        with_author,
        plate,
        cx: plate.x + plate_w / 2,
        first,
        last: first + (text_h - lh),
        author: plate.y + pad + text_h + 6 + l.ascent,
    };
    proof {
        reveal(cover_plan);
        let q = cover_plan(*s, r, face, count as int, has_author);
        assert(q.cut == cut);
        assert(q.n == n);
        assert(text_h == q.n * lh);
        assert(q.with_author == with_author);
        assert(q.plate == plate);
        assert(q.cx == p.cx);
        assert(q.first == first);
        assert(q.last == p.last);
        assert(q.author == p.author);
    }
    p
}

/// What a typographic cover draws: the title's lines in the face that its words' widths call for.
pub open spec fn typographic_cover_ops(
    s: Sheet,
    r: Rect,
    words: Seq<i32>,
    lines: Seq<Seq<char>>,
    author: Seq<char>,
) -> Seq<Op<Seq<char>>> {
    plate_ops(s, r, title_face(r, words), lines, author)
}

/// What a title plate over its hatch draws.
#[verifier::opaque]
pub open spec fn plate_ops(
    s: Sheet,
    r: Rect,
    face: Face,
    lines: Seq<Seq<char>>,
    author: Seq<char>,
) -> Seq<Op<Seq<char>>> {
    let p = cover_plan(s, r, face, lines.len() as int, author.len() > 0);
    let lh = if face == Face::Body { s.faces.body.line_h as int } else { s.faces.label.line_h as int };
    seq![
        Op::Fill(r, Ink::White),
        Op::Pattern(r, Pattern::Hatch(6)),
        Op::Fill(p.plate, Ink::White),
        Op::Stroke(p.plate, 1, Ink::Black),
    ] + centred_lines(face, p.cx as int, p.first as int, lh, lines, if p.cut { p.n - 1 } else { p.n as int }) + (if p.cut {
        seq![
            crate::draw::centred(
                face,
                p.cx as int,
                Base::At(p.last),
                lines[p.n - 1] + "…"@,
                Some(cover_text_w(r)),
                false,
            ),
        ]
    } else {
        Seq::empty()
    }) + (if p.with_author {
        seq![
            crate::draw::centred(Face::Label, p.cx as int, Base::At(p.author), author, Some(cover_text_w(r)), false),
        ]
    } else {
        Seq::empty()
    })
}

/// The typographic cover: a white title plate over a 6 px hatch. The plate scales with the cell, and
/// holds only as many lines (and the author) as the cell has room for.
///
/// `words` are the widths of the title's words in body text, which decide its face as [`cover_face`]
/// says; `lines` is the title wrapped to [`cover_text_width`] in that face, a word wider than that
/// shortened with an ellipsis rather than broken.
pub fn typographic_cover(f: &mut Frame, r: Rect, words: &Vec<i32>, lines: &Vec<String>, author: &str)
    requires
        old(f).sheet.wf(),
        r.sane(),
        2 * cover_pad(r) <= r.w,
        lines@.len() <= MAX_LINES,
    ensures
        final(f).sheet == old(f).sheet,
        final(f)@ == old(f)@ + typographic_cover_ops(old(f).sheet, r, words@, text::texts(lines@), author@),
{
    let face = cover_face(r, words);
    plate(f, r, face, lines, author);
}

#[verifier::spinoff_prover]
#[verifier::rlimit(30)]
fn plate(f: &mut Frame, r: Rect, face: Face, lines: &Vec<String>, author: &str)
    requires
        old(f).sheet.wf(),
        r.sane(),
        face == Face::Body || face == Face::Label,
        2 * cover_pad(r) <= r.w,
        lines@.len() <= MAX_LINES,
    ensures
        final(f).sheet == old(f).sheet,
        final(f)@ == old(f)@ + plate_ops(old(f).sheet, r, face, text::texts(lines@), author@),
{
    let ghost ls = text::texts(lines@);
    let p = plan_cover(&f.sheet, r, face, lines.len(), !author.is_empty());
    let lh: i32 = if face == Face::Body { f.sheet.faces.body.line_h } else { f.sheet.faces.label.line_h };
    let text_w: i32 = cover_text_width(r);
    f.fill_rect(r, Ink::White);
    f.pattern_rect(r, Pattern::Hatch(6));
    f.fill_rect(p.plate, Ink::White);
    f.stroke_rect(p.plate, 1, Ink::Black);
    if p.cut {
        let n: usize = p.n - 1;
        let mut shown: Vec<String> = Vec::new();
        let mut i: usize = 0;
        while i < n
            invariant
                i <= n < lines@.len(),
                shown@.len() == i,
                ls == text::texts(lines@),
                forall|j: int| 0 <= j < i ==> (#[trigger] shown@[j])@ == ls[j],
            decreases n - i,
        {
            shown.push(lines[i].clone());
            i += 1;
        }
        draw_centred_lines(f, face, p.cx, p.first, lh, &shown);
        proof {
            lemma_centred_lines_prefix(face, p.cx as int, p.first as int, lh as int, text::texts(shown@), ls, n as int);
        }
        let last = text::join2(&lines[n], "…");
        f.text_centred(face, p.cx, Base::At(p.last), &last, Some(text_w), false);
    } else {
        draw_centred_lines(f, face, p.cx, p.first, lh, lines);
    }
    if p.with_author {
        f.text_centred(Face::Label, p.cx, Base::At(p.author), author, Some(text_w), false);
    }
    proof {
        reveal(plate_ops);
        assert(f@ =~= old(f)@ + plate_ops(old(f).sheet, r, face, ls, author@));
    }
}

proof fn lemma_centred_lines_prefix(
    face: Face,
    cx: int,
    y: int,
    lh: int,
    a: Seq<Seq<char>>,
    b: Seq<Seq<char>>,
    n: int,
)
    requires
        forall|j: int| 0 <= j < n ==> a[j] == b[j],
    ensures
        centred_lines(face, cx, y, lh, a, n) == centred_lines(face, cx, y, lh, b, n),
    decreases n,
{
    if n > 0 {
        lemma_centred_lines_prefix(face, cx, y, lh, a, b, n - 1);
    }
}

/// The tag under a cover: how far the book is read.
pub open spec fn cover_tag(percent: Option<u8>) -> Seq<char> {
    match percent {
        Some(p) => if 0 < p < 100 {
            text::decimal(p as nat) + "%"@
        } else if p == 100 {
            "finished"@
        } else {
            Seq::empty()
        },
        None => Seq::empty(),
    }
}

/// The second line under a cover.
pub open spec fn cover_line(author: Seq<char>, percent: Option<u8>) -> Seq<char> {
    let tag = cover_tag(percent);
    if author.len() > 0 && tag.len() > 0 {
        author + " · "@ + tag
    } else if tag.len() > 0 {
        tag
    } else {
        author
    }
}

fn cover_line_text(author: &str, percent: Option<u8>) -> (r: String)
    ensures
        r@ == cover_line(author@, percent),
{
    let tag = match percent {
        Some(p) => if p > 0 && p < 100 {
            text::join2(&text::number(p as u64), "%")
        } else if p == 100 {
            text::owned("finished")
        } else {
            String::new()
        },
        None => String::new(),
    };
    assert(tag@ =~= cover_tag(percent));
    if !author.is_empty() && !tag.as_str().is_empty() {
        text::join3(author, " · ", &tag)
    } else if !tag.as_str().is_empty() {
        tag
    } else {
        text::owned(author)
    }
}

/// What goes into a cover's frame: the picture, or the title set on a plate.
pub enum CoverArt {
    /// A picture of this size.
    Picture(u32, u32),
    /// The widths of the title's words in body text, and its wrapped lines.
    Plate(Vec<i32>, Vec<String>),
}

/// What a cover cell draws.
pub open spec fn cover_cell_ops(
    s: Sheet,
    x: int,
    y: int,
    art: CoverArt,
    title: Seq<char>,
    author: Seq<char>,
    focused: bool,
    percent: Option<u8>,
) -> Seq<Op<Seq<char>>> {
    let r = crate::draw::rect(x, y, COVER_W as int, COVER_H as int);
    let (b, l) = (s.faces.body, s.faces.label);
    (match art {
        CoverArt::Picture(w, h) => seq![
            Op::Fill(r, Ink::White),
            Op::Blit((x + half(COVER_W - w)) as i32, (y + half(COVER_H - h)) as i32),
        ],
        CoverArt::Plate(words, lines) => typographic_cover_ops(s, r, words@, text::texts(lines@), author),
    }) + seq![
        Op::Stroke(r, if focused { 6 } else { 2 }, Ink::Black),
        crate::draw::plain(
            Face::Body,
            x,
            crate::draw::at(y + COVER_H + 8 + b.ascent),
            title,
            Some(COVER_W as int),
            false,
        ),
        crate::draw::plain(
            Face::Label,
            x,
            crate::draw::at(y + COVER_H + 8 + b.ascent + b.below + 4 + l.ascent),
            cover_line(author, percent),
            Some(COVER_W as int),
            false,
        ),
    ]
}

/// A cover grid cell: 152 × 228 in a 2 px frame (6 px on focus) plus two lines beneath.
pub fn cover_cell(
    f: &mut Frame,
    x: i32,
    y: i32,
    art: &CoverArt,
    title: &str,
    author: &str,
    focused: bool,
    percent: Option<u8>,
)
    requires
        old(f).sheet.wf(),
        crate::draw::sane(x as int),
        crate::draw::sane(y as int),
        match *art {
            CoverArt::Picture(w, h) => w <= crate::draw::FAR && h <= crate::draw::FAR,
            CoverArt::Plate(_, lines) => lines@.len() <= MAX_LINES,
        },
    ensures
        final(f).sheet == old(f).sheet,
        final(f)@ == old(f)@ + cover_cell_ops(
            old(f).sheet,
            x as int,
            y as int,
            *art,
            title@,
            author@,
            focused,
            percent,
        ),
{
    let r = Rect::new(x, y, COVER_W, COVER_H);
    match art {
        CoverArt::Picture(w, h) => {
            f.fill_rect(r, Ink::White);
            let ox: i32 = x + halve(COVER_W as i32 - *w as i32);
            let oy: i32 = y + halve(COVER_H as i32 - *h as i32);
            f.draw(Op::Blit(ox, oy));
        },
        CoverArt::Plate(words, lines) => {
            typographic_cover(f, r, words, lines, author);
        },
    }
    f.stroke_rect(r, if focused { 6 } else { 2 }, Ink::Black);
    let b = f.sheet.faces.body;
    let l = f.sheet.faces.label;
    f.text(Face::Body, x, Base::At(y + COVER_H as i32 + 8 + b.ascent), title, Some(COVER_W as i32), false);
    let line2 = cover_line_text(author, percent);
    f.text(
        Face::Label,
        x,
        Base::At(y + COVER_H as i32 + 8 + b.ascent + b.below + 4 + l.ascent),
        &line2,
        Some(COVER_W as i32),
        false,
    );
    assert(f@ =~= old(f)@ + cover_cell_ops(
        old(f).sheet,
        x as int,
        y as int,
        *art,
        title@,
        author@,
        focused,
        percent,
    ));
}

/// What a poster numeral draws.
pub open spec fn poster_centered_ops(
    s: Sheet,
    cx: int,
    y: int,
    value: Seq<char>,
    label: Seq<char>,
    hero: bool,
) -> Seq<Op<Seq<char>>> {
    let m = if hero { s.faces.hero } else { s.faces.poster };
    let ly = y + m.ascent + m.below + 6 + s.faces.label.ascent;
    seq![
        crate::draw::centred(if hero { Face::Hero } else { Face::Poster }, cx, crate::draw::at(y + m.ascent), value, None, false),
        match crate::draw::centred(Face::Label, cx, crate::draw::at(ly), label, None, false) {
            Op::Text(t) => Op::Text(TextOp { caps: true, ..t }),
            o => o,
        },
    ]
}

/// A single poster numeral with its label, centred on `cx`. Returns where it ends.
pub fn poster_centered(f: &mut Frame, cx: i32, y: i32, value: &str, label: &str, hero: bool) -> (r: i32)
    requires
        old(f).sheet.wf(),
        crate::draw::sane(y as int),
    ensures
        ({
            let s = old(f).sheet;
            let m = if hero { s.faces.hero } else { s.faces.poster };
            r == y + m.ascent + m.below + 6 + s.faces.label.ascent + s.faces.label.below
        }),
        final(f).sheet == old(f).sheet,
        final(f)@ == old(f)@ + poster_centered_ops(old(f).sheet, cx as int, y as int, value@, label@, hero),
{
    let m = if hero { f.sheet.faces.hero } else { f.sheet.faces.poster };
    let l = f.sheet.faces.label;
    f.text_centred(if hero { Face::Hero } else { Face::Poster }, cx, Base::At(y + m.ascent), value, None, false);
    let ly: i32 = y + m.ascent + m.below + 6 + l.ascent;
    f.draw(
        Op::Text(
            TextOp {
                face: Face::Label,
                x: cx,
                place: Place::Centre,
                base: Base::At(ly),
                text: text::owned(label),
                fit: None,
                inverted: false,
                caps: true,
            },
        ),
    );
    assert(f@ =~= old(f)@ + poster_centered_ops(old(f).sheet, cx as int, y as int, value@, label@, hero));
    ly + l.below
}

/// A poster tile: its numeral, as wide as it is in the poster face, and its label.
#[derive(Clone, Debug, PartialEq, Eq)]
pub struct Tile {
    /// Numeral.
    pub value: Measured,
    /// Label.
    pub label: String,
}

/// Height of a row of tiles.
pub open spec fn tile_h(s: Sheet) -> int {
    24 + s.faces.poster.ascent + s.faces.poster.below + 4 + s.faces.label.line_h + 20
}

/// How many rows of tiles there are.
pub open spec fn tile_rows(n: int, cols: int) -> int {
    if n == 0 {
        0
    } else {
        (n - 1) / cols + 1
    }
}

/// What tile `i` of `n` draws.
#[verifier::opaque]
pub open spec fn tile_ops(s: Sheet, x: int, y: int, cw: int, i: int, n: int, cols: int, tile: Tile) -> Seq<Op<Seq<char>>> {
    let (c, r) = (i % cols, i / cols);
    let th = tile_h(s);
    let tx = x + c * cw;
    let ty = y + r * th;
    let pad = if c == 0 { 0int } else { 20 };
    let p = s.faces.poster;
    seq![
        crate::draw::plain(
            if tile.value.width > cw - pad - 12 { Face::Title } else { Face::Poster },
            tx + pad,
            crate::draw::at(ty + 24 + p.ascent),
            tile.value.text@,
            None,
            false,
        ),
        crate::draw::caps(
            tx + pad,
            ty + 24 + p.ascent + p.below + 4 + s.faces.label.ascent,
            tile.label@,
            Some(cw - pad - 8),
            false,
        ),
    ] + (if c + 1 < cols && i + 1 < n {
        seq![crate::draw::fill(tx + cw - 1, ty, RULE as int, th, Ink::Black)]
    } else {
        Seq::empty()
    }) + (if r + 1 < tile_rows(n, cols) {
        seq![crate::draw::fill(tx, ty + th - 1, cw, RULE as int, Ink::Black)]
    } else {
        Seq::empty()
    })
}

/// What the first `k` tiles draw.
pub open spec fn tiles_ops(s: Sheet, x: int, y: int, cw: int, cols: int, tiles: Seq<Tile>, k: int) -> Seq<Op<Seq<char>>>
    decreases k,
{
    if k <= 0 {
        Seq::empty()
    } else {
        tiles_ops(s, x, y, cw, cols, tiles, k - 1) + tile_ops(s, x, y, cw, k - 1, tiles.len() as int, cols, tiles[k - 1])
    }
}

fn tile(f: &mut Frame, x: i32, y: i32, cw: i32, th: i32, i: usize, n: usize, cols: usize, rows: usize, t: &Tile)
    requires
        old(f).sheet.wf(),
        crate::draw::sane(x as int),
        -0x10_0000 <= y <= 0x10_0000,
        0 <= cw <= 0x10_0000,
        th == tile_h(old(f).sheet),
        1 <= cols <= 0x100,
        i < n <= 0x100,
        rows == tile_rows(n as int, cols as int),
        rows <= 0x101,
        t.value.wf(),
    ensures
        final(f).sheet == old(f).sheet,
        final(f)@ == old(f)@ + tile_ops(
            old(f).sheet,
            x as int,
            y as int,
            cw as int,
            i as int,
            n as int,
            cols as int,
            *t,
        ),
{
    let p = f.sheet.faces.poster;
    let l = f.sheet.faces.label;
    let c: usize = i % cols;
    let r: usize = i / cols;
    proof {
        lemma_page(i as int, cols as int);
        assert(0 <= c * cw <= 0x100 * 0x10_0000) by (nonlinear_arith)
            requires
                0 <= c <= 0x100,
                0 <= cw <= 0x10_0000,
        ;
        assert(0 <= r * th <= 0x100 * 0x8000) by (nonlinear_arith)
            requires
                0 <= r <= 0x100,
                0 <= th <= 0x8000,
        ;
    }
    let tx: i32 = x + c as i32 * cw;
    let ty: i32 = y + r as i32 * th;
    let pad: i32 = if c == 0 { 0 } else { 20 };
    let face = if t.value.width > cw - pad - 12 { Face::Title } else { Face::Poster };
    f.text(face, tx + pad, Base::At(ty + 24 + p.ascent), &t.value.text, None, false);
    f.label(tx + pad, ty + 24 + p.ascent + p.below + 4 + l.ascent, &t.label, Some(cw - pad - 8), false);
    if c + 1 < cols && i + 1 < n {
        f.fill_rect(Rect::new(tx + cw - 1, ty, RULE, th as u32), Ink::Black);
    }
    if r + 1 < rows {
        f.fill_rect(Rect::new(tx, ty + th - 1, cw as u32, RULE), Ink::Black);
    }
    proof {
        reveal(tile_ops);
        assert(f@ =~= old(f)@ + tile_ops(
            old(f).sheet,
            x as int,
            y as int,
            cw as int,
            i as int,
            n as int,
            cols as int,
            *t,
        ));
    }
}

/// Poster tiles: 44 px numeral over an 18 px small-cap label, in a grid with 2 px rules. Column 0
/// sits on the margin like the title and rule above it; later columns stand 20 px off their rule.
/// Returns where the tiles end.
pub fn poster_tiles(f: &mut Frame, x: i32, y: i32, w: i32, tiles: &Vec<Tile>, cols: usize) -> (end: i32)
    requires
        old(f).sheet.wf(),
        crate::draw::sane(x as int),
        -0x10_0000 <= y <= 0x10_0000,
        0 <= w <= 0x10_0000,
        cols <= 0x100,
        tiles@.len() <= 0x100,
        forall|i: int| 0 <= i < tiles@.len() ==> (#[trigger] tiles@[i]).value.wf(),
    ensures
        ({
            let c = if cols > 1 { cols as int } else { 1 };
            &&& end == y + tile_rows(tiles@.len() as int, c) * tile_h(old(f).sheet)
            &&& final(f)@ == old(f)@ + tiles_ops(
                old(f).sheet,
                x as int,
                y as int,
                w as int / c,
                c,
                tiles@,
                tiles@.len() as int,
            )
        }),
        final(f).sheet == old(f).sheet,
{
    let cols: usize = if cols > 1 { cols } else { 1 };
    let n: usize = tiles.len();
    proof {
        let (a, b) = (w as int, cols as int);
        assert(0 <= a / b <= a) by (nonlinear_arith)
            requires
                a >= 0,
                b > 0,
        ;
    }
    let cw: i32 = w / cols as i32;
    let p = f.sheet.faces.poster;
    let l = f.sheet.faces.label;
    let th: i32 = 24 + p.ascent + p.below + 4 + l.line_h + 20;
    proof {
        if n > 0 {
            lemma_page(n - 1, cols as int);
        }
    }
    let rows: usize = if n == 0 { 0 } else { (n - 1) / cols + 1 };
    let mut i: usize = 0;
    assert(f@ =~= old(f)@ + tiles_ops(old(f).sheet, x as int, y as int, cw as int, cols as int, tiles@, 0));
    while i < n
        invariant
            i <= n,
            n == tiles@.len(),
            n <= 0x100,
            1 <= cols <= 0x100,
            0 <= cw <= 0x10_0000,
            old(f).sheet.wf(),
            crate::draw::sane(x as int),
            -0x10_0000 <= y <= 0x10_0000,
            th == tile_h(old(f).sheet),
            rows == tile_rows(n as int, cols as int),
            rows <= 0x101,
            forall|j: int| 0 <= j < tiles@.len() ==> (#[trigger] tiles@[j]).value.wf(),
            f.sheet == old(f).sheet,
            f@ == old(f)@ + tiles_ops(old(f).sheet, x as int, y as int, cw as int, cols as int, tiles@, i as int),
        decreases n - i,
    {
        assert(tiles@[i as int].value.wf());
        let ghost before = f@;
        tile(f, x, y, cw, th, i, n, cols, rows, &tiles[i]);
        assert(f@ == before + tile_ops(old(f).sheet, x as int, y as int, cw as int, i as int, n as int, cols as int, tiles@[i as int]));
        assert(f@ =~= old(f)@ + tiles_ops(old(f).sheet, x as int, y as int, cw as int, cols as int, tiles@, i + 1));
        i += 1;
    }
    proof {
        assert(0 <= rows * th <= 0x101 * 0x8000) by (nonlinear_arith)
            requires
                0 <= rows <= 0x101,
                0 <= th <= 0x8000,
        ;
    }
    y + rows as i32 * th
}

/// The value part of a setting row.
#[derive(Clone, Debug, PartialEq, Eq)]
pub enum SettingValue {
    /// A toggle.
    Toggle(bool),
    /// A stepper showing text ("26").
    Stepper(String),
    /// A choice showing text ("Justified ›").
    Choice(String),
    /// A slider: position 0–1000 and a value text.
    Slider(u16, String),
    /// Plain text (a status or a navigation row).
    Text(String),
    /// Navigation chevron only.
    Nav,
}

impl SettingValue {
    /// The text a value shows.
    pub open spec fn shown(self) -> Seq<char> {
        match self {
            SettingValue::Stepper(v) => "‹ "@ + v@ + " ›"@,
            SettingValue::Choice(v) => v@ + " ›"@,
            SettingValue::Slider(_, v) => v@,
            SettingValue::Text(v) => v@,
            _ => Seq::empty(),
        }
    }

    /// The text a value shows; its width goes with it into [`setting_row`].
    pub fn text(&self) -> (r: String)
        ensures
            r@ == self.shown(),
    {
        match self {
            SettingValue::Stepper(v) => text::join3("‹ ", v, " ›"),
            SettingValue::Choice(v) => text::join2(v, " ›"),
            SettingValue::Slider(_, v) => v.clone(),
            SettingValue::Text(v) => v.clone(),
            _ => String::new(),
        }
    }

    /// What the value takes of the row's width.
    pub open spec fn taken(self, tw: int) -> int {
        match self {
            SettingValue::Toggle(_) => 72,
            SettingValue::Slider(_, _) => tw + 14 + 180 + 16,
            SettingValue::Nav => 40,
            _ => tw + 16,
        }
    }
}

/// What the value of a setting row draws; `tw` is the width of its text.
pub open spec fn setting_value_ops(s: Sheet, y: int, h: int, value: SettingValue, tw: int, inv: bool) -> Seq<Op<Seq<char>>> {
    let right = s.w - s.theme.row_pad;
    let ink = row_ink(inv);
    match value {
        SettingValue::Toggle(on) => {
            let top = y + half(h - 28);
            seq![
                Op::Stroke(crate::draw::rect(right - 56, top, 56, 28), 2, ink),
                crate::draw::fill(if on { right - 26 } else { right - 54 }, top + 2, 24, 24, ink),
            ]
        },
        SettingValue::Slider(pos, _) => {
            let bar = right - tw - 14 - 180;
            let at = if pos < 1000 { pos as int } else { 1000 };
            let by = y + half(h) - 1;
            seq![
                crate::draw::plain(Face::Label, right - tw, crate::draw::mid(y, h), value.shown(), None, inv),
                crate::draw::fill(bar, by, 180, 2, ink),
                crate::draw::fill(bar + at * 164 / 1000, by - 7, 16, 16, ink),
            ]
        },
        SettingValue::Nav => seq![Op::Icon(Icon::ChevronRight, (right - 24) as i32, (y + half(h - 24)) as i32, ink)],
        SettingValue::Choice(_) => seq![
            crate::draw::plain(Face::Label, right - tw, crate::draw::mid(y, h), value.shown(), None, inv),
        ],
        SettingValue::Stepper(_) => seq![
            crate::draw::plain(Face::Mono, right - tw, crate::draw::mid(y, h), value.shown(), None, inv),
        ],
        SettingValue::Text(_) => seq![
            crate::draw::plain(
                Face::Mono,
                right - tw,
                crate::draw::mid(y, h),
                value.shown(),
                Some((s.w - 2 * s.theme.row_pad) / 2),
                inv,
            ),
        ],
    }
}

/// What a setting row draws.
pub open spec fn setting_row_ops(
    s: Sheet,
    y: int,
    h: int,
    title: Seq<char>,
    value: SettingValue,
    tw: int,
    state: RowState,
) -> Seq<Op<Seq<char>>> {
    let inv = state == RowState::Focused;
    let avail = s.w - 2 * s.theme.row_pad - value.taken(tw);
    seq![crate::draw::fill(0, y, s.w as int, h, row_paper(inv))] + setting_value_ops(s, y, h, value, tw, inv) + seq![
        crate::draw::plain(Face::Body, s.theme.row_pad as int, crate::draw::mid(y, h), title, Some(avail), inv),
    ] + row_end_ops(s, y, h, state)
}

fn setting_value(f: &mut Frame, y: i32, h: i32, value: &SettingValue, tw: i32, inv: bool) -> (taken: i32)
    requires
        old(f).sheet.wf(),
        crate::draw::sane(y as int),
        0 < h <= 0x1_0000,
        0 <= tw <= 0x10_0000,
    ensures
        taken == value.taken(tw as int),
        final(f).sheet == old(f).sheet,
        final(f)@ == old(f)@ + setting_value_ops(old(f).sheet, y as int, h as int, *value, tw as int, inv),
{
    let w: i32 = f.width() as i32;
    let pad: i32 = f.sheet.theme.row_pad;
    let right: i32 = w - pad;
    let ink = if inv { Ink::White } else { Ink::Black };
    let shown = value.text();
    let taken: i32 = match value {
        SettingValue::Toggle(on) => {
            let top: i32 = y + halve(h - 28);
            f.stroke_rect(Rect::new(right - 56, top, 56, 28), 2, ink);
            let kx: i32 = if *on { right - 26 } else { right - 54 };
            f.fill_rect(Rect::new(kx, top + 2, 24, 24), ink);
            72
        },
        SettingValue::Stepper(_) => {
            f.text(Face::Mono, right - tw, Base::Mid(y, h), &shown, None, inv);
            tw + 16
        },
        SettingValue::Choice(_) => {
            f.text(Face::Label, right - tw, Base::Mid(y, h), &shown, None, inv);
            tw + 16
        },
        SettingValue::Slider(pos, _) => {
            f.text(Face::Label, right - tw, Base::Mid(y, h), &shown, None, inv);
            let bar: i32 = right - tw - 14 - 180;
            let by: i32 = y + halve(h) - 1;
            f.fill_rect(Rect::new(bar, by, 180, 2), ink);
            let at: i32 = if *pos < 1000 { *pos as i32 } else { 1000 };
            f.fill_rect(Rect::new(bar + at * 164 / 1000, by - 7, 16, 16), ink);
            tw + 14 + 180 + 16
        },
        SettingValue::Text(_) => {
            f.text(Face::Mono, right - tw, Base::Mid(y, h), &shown, Some((w - 2 * pad) / 2), inv);
            tw + 16
        },
        SettingValue::Nav => {
            f.draw(Op::Icon(Icon::ChevronRight, right - 24, y + halve(h - 24), ink));
            40
        },
    };
    assert(f@ =~= old(f)@ + setting_value_ops(old(f).sheet, y as int, h as int, *value, tw as int, inv));
    taken
}

/// A setting row. `tw` is the width of the value's text, as [`SettingValue::text`] gives it: in mono
/// for a stepper, in the label face for a choice or a slider, in mono and shortened to half of the
/// row for plain text.
pub fn setting_row(f: &mut Frame, y: i32, h: i32, title: &str, value: &SettingValue, tw: i32, state: RowState)
    requires
        old(f).sheet.wf(),
        crate::draw::sane(y as int),
        0 < h <= 0x1_0000,
        0 <= tw <= 0x10_0000,
    ensures
        final(f).sheet == old(f).sheet,
        final(f)@ == old(f)@ + setting_row_ops(old(f).sheet, y as int, h as int, title@, *value, tw as int, state),
{
    let w: i32 = f.width() as i32;
    let pad: i32 = f.sheet.theme.row_pad;
    let inv = state == RowState::Focused;
    f.fill_rect(Rect::new(0, y, w as u32, h as u32), if inv { Ink::Black } else { Ink::White });
    let taken: i32 = setting_value(f, y, h, value, tw, inv);
    f.text(Face::Body, pad, Base::Mid(y, h), title, Some(w - 2 * pad - taken), inv);
    row_end(f, y, h, state);
    assert(f@ =~= old(f)@ + setting_row_ops(old(f).sheet, y as int, h as int, title@, *value, tw as int, state));
}

/// The card of a dialog with `n` lines.
pub open spec fn dialog_card(s: Sheet, n: int) -> Rect {
    let (t, b) = (s.faces.title, s.faces.body);
    let h = 28 + t.ascent + t.below + 12 + n * b.line_h + 24 + s.theme.rail_h + 2;
    crate::draw::rect(s.theme.margin as int, half(s.h - s.theme.rail_h - h), s.w - 2 * s.theme.margin, h)
}

/// What a cell of a dialog's rail draws.
pub open spec fn dialog_cell_ops(s: Sheet, card: Rect, i: int, label: Seq<char>) -> Seq<Op<Seq<char>>> {
    let cell = (card.w - 4) / 4;
    let x = card.x + 2 + i * cell;
    let top = card.bottom_edge() - s.theme.rail_h - 2 + RULE_HEAVY;
    let h = s.theme.rail_h - RULE_HEAVY;
    let cx = x + cell / 2;
    (if i < 3 { seq![crate::draw::fill(x + cell - 1, top, 1, h, Ink::Black)] } else { Seq::empty() }) + seq![
        if label.len() == 0 {
            crate::draw::fill(cx - 1, top + h / 2 - 1, 2, 2, Ink::Black)
        } else {
            crate::draw::centred(Face::Mono, cx, crate::draw::mid(top, h), label, None, false)
        },
    ]
}

/// What a dialog draws.
pub open spec fn dialog_ops(
    s: Sheet,
    title: Seq<char>,
    lines: Seq<Seq<char>>,
    cancel: Seq<char>,
    confirm: Seq<char>,
) -> Seq<Op<Seq<char>>> {
    let card = dialog_card(s, lines.len() as int);
    let (t, b) = (s.faces.title, s.faces.body);
    seq![
        Op::Fill(card, Ink::White),
        Op::Stroke(card, 2, Ink::Black),
        crate::draw::plain(
            Face::Title,
            card.x + 28,
            crate::draw::at(card.y + 28 + t.ascent),
            title,
            Some(s.w - 2 * s.theme.margin - 56),
            false,
        ),
    ] + plain_lines(
        Face::Body,
        card.x + 28,
        card.y + 28 + t.ascent + t.below + 12 + b.ascent,
        b.line_h as int,
        lines,
        lines.len() as int,
    ) + seq![
        crate::draw::fill(
            card.x + 2,
            card.bottom_edge() - s.theme.rail_h - 2,
            card.w - 4,
            RULE_HEAVY as int,
            Ink::Black,
        ),
    ] + dialog_cell_ops(s, card, 0, Seq::empty()) + dialog_cell_ops(s, card, 1, cancel) + dialog_cell_ops(
        s,
        card,
        2,
        confirm,
    ) + dialog_cell_ops(s, card, 3, Seq::empty())
}

fn dialog_cell(f: &mut Frame, card: Rect, i: i32, label: &str)
    requires
        old(f).sheet.wf(),
        card.sane(),
        64 <= card.w <= 0x1_0000,
        0 <= i < 4,
    ensures
        final(f).sheet == old(f).sheet,
        final(f)@ == old(f)@ + dialog_cell_ops(old(f).sheet, card, i as int, label@),
{
    let rail_h: i32 = f.sheet.theme.rail_h;
    let cell: i32 = (card.w as i32 - 4) / 4;
    assert(0 <= i * cell <= 3 * cell) by (nonlinear_arith)
        requires
            0 <= i < 4,
            cell >= 0,
    ;
    let x: i32 = card.x + 2 + i * cell;
    let top: i32 = card.bottom() - rail_h - 2 + RULE_HEAVY as i32;
    let h: i32 = rail_h - RULE_HEAVY as i32;
    if i < 3 {
        f.fill_rect(Rect::new(x + cell - 1, top, 1, h as u32), Ink::Black);
    }
    let cx: i32 = x + cell / 2;
    if label.is_empty() {
        f.fill_rect(Rect::new(cx - 1, top + h / 2 - 1, 2, 2), Ink::Black);
    } else {
        f.text_centred(Face::Mono, cx, Base::Mid(top, h), label, None, false);
    }
    assert(f@ =~= old(f)@ + dialog_cell_ops(old(f).sheet, card, i as int, label@));
}

/// A full-width dialog card with two actions on Back and Confirm. `lines` is the body wrapped to the
/// card's inside. Returns the card rect.
pub fn dialog(f: &mut Frame, title: &str, lines: &Vec<String>, cancel: &str, confirm: &str) -> (card: Rect)
    requires
        old(f).sheet.wf(),
        lines@.len() <= 0x100,
    ensures
        card == dialog_card(old(f).sheet, lines@.len() as int),
        final(f).sheet == old(f).sheet,
        final(f)@ == old(f)@ + dialog_ops(old(f).sheet, title@, text::texts(lines@), cancel@, confirm@),
{
    let w: i32 = f.width() as i32;
    let margin: i32 = f.sheet.theme.margin;
    let rail_h: i32 = f.sheet.theme.rail_h;
    let t = f.sheet.faces.title;
    let b = f.sheet.faces.body;
    assert(0 <= lines@.len() * b.line_h <= 0x100 * 0x1000) by (nonlinear_arith)
        requires
            0 <= lines@.len() <= 0x100,
            0 <= b.line_h <= 0x1000,
    ;
    let h: i32 = 28 + t.ascent + t.below + 12 + lines.len() as i32 * b.line_h + 24 + rail_h + 2;
    let y: i32 = halve(f.height() as i32 - rail_h - h);
    let card = Rect::new(margin, y, (w - 2 * margin) as u32, h as u32);
    assert(card == dialog_card(f.sheet, lines@.len() as int));
    f.fill_rect(card, Ink::White);
    f.stroke_rect(card, 2, Ink::Black);
    f.text(Face::Title, card.x + 28, Base::At(card.y + 28 + t.ascent), title, Some(w - 2 * margin - 56), false);
    draw_lines(f, Face::Body, card.x + 28, card.y + 28 + t.ascent + t.below + 12 + b.ascent, b.line_h, lines);
    // The card's own rail: Cancel on Back, the action on Confirm.
    let ry: i32 = card.bottom() - rail_h - 2;
    f.fill_rect(Rect::new(card.x + 2, ry, card.w - 4, RULE_HEAVY), Ink::Black);
    dialog_cell(f, card, 0, "");
    dialog_cell(f, card, 1, cancel);
    dialog_cell(f, card, 2, confirm);
    dialog_cell(f, card, 3, "");
    proof {
        reveal_strlit("");
        assert(""@ =~= Seq::empty());
        assert(f@ =~= old(f)@ + dialog_ops(old(f).sheet, title@, text::texts(lines@), cancel@, confirm@));
    }
    card
}

/// The steps of a bar from `from` on: 10 px each with 2 px gaps, up to `filled`.
pub open spec fn bar_steps(x: int, y: int, h: int, filled: int, from: int) -> Seq<Op<Seq<char>>>
    decreases filled + 12 - from,
{
    if from >= filled {
        Seq::empty()
    } else {
        seq![crate::draw::fill(x + from, y, if filled - from < 10 { filled - from } else { 10 }, h, Ink::Black)]
            + bar_steps(x, y, h, filled, from + 12)
    }
}

/// What is left of a side inside a bar's frame.
pub open spec fn inside(side: u32) -> int {
    if side >= 8 {
        side - 8
    } else {
        0
    }
}

/// How much of a bar is filled.
pub open spec fn bar_filled(r: Rect, permille: u32) -> int {
    inside(r.w) * (if permille < 1000 { permille as int } else { 1000 }) / 1000
}

/// What a stepped bar draws.
pub open spec fn stepped_bar_ops(r: Rect, permille: u32) -> Seq<Op<Seq<char>>> {
    seq![Op::Fill(r, Ink::White), Op::Stroke(r, 2, Ink::Black)] + bar_steps(
        r.x + 4,
        r.y + 4,
        inside(r.h),
        bar_filled(r, permille),
        0,
    )
}

/// A stepped progress bar: 10 px steps with 2 px gaps inside a 2 px frame, 16 px tall.
pub fn stepped_bar(f: &mut Frame, r: Rect, permille: u32)
    requires
        r.sane(),
    ensures
        final(f).sheet == old(f).sheet,
        final(f)@ == old(f)@ + stepped_bar_ops(r, permille),
{
    f.fill_rect(r, Ink::White);
    f.stroke_rect(r, 2, Ink::Black);
    let iw: u32 = if r.w >= 8 { r.w - 8 } else { 0 };
    let ih: u32 = if r.h >= 8 { r.h - 8 } else { 0 };
    let part: u32 = if permille < 1000 { permille } else { 1000 };
    assert(0 <= iw * part <= iw * 1000) by (nonlinear_arith)
        requires
            0 <= iw,
            0 <= part <= 1000,
    ;
    let filled: i32 = (iw as u64 * part as u64 / 1000) as i32;
    assert(filled == bar_filled(r, permille));
    let ghost head = f@;
    let ghost all = bar_steps(r.x + 4, r.y + 4, ih as int, filled as int, 0);
    let mut from: i32 = 0;
    assert(f@ + bar_steps(r.x + 4, r.y + 4, ih as int, filled as int, 0) =~= head + all);
    while from < filled
        invariant
            0 <= from <= filled + 12,
            0 <= filled <= crate::draw::FAR,
            r.sane(),
            f.sheet == old(f).sheet,
            f@ + bar_steps(r.x + 4, r.y + 4, ih as int, filled as int, from as int) == head + all,
        decreases filled + 12 - from,
    {
        let ghost before = f@;
        let left: i32 = filled - from;
        let step: i32 = if left < 10 { left } else { 10 };
        f.fill_rect(Rect::new(r.x + 4 + from, r.y + 4, step as u32, ih), Ink::Black);
        assert(f@ + bar_steps(r.x + 4, r.y + 4, ih as int, filled as int, from + 12) =~= before + bar_steps(
            r.x + 4,
            r.y + 4,
            ih as int,
            filled as int,
            from as int,
        ));
        from = from + 12;
    }
    assert(f@ =~= head + all);
    assert(f@ =~= old(f)@ + stepped_bar_ops(r, permille));
}

/// Progress only ever adds ink: no part of the bar that is filled at one progress is empty at a
/// later one, the bar is empty at none and full at all.
pub proof fn law_bar_grows(r: Rect, a: u32, b: u32)
    requires
        a <= b,
    ensures
        0 <= bar_filled(r, a) <= bar_filled(r, b) <= inside(r.w),
        bar_filled(r, 0) == 0,
        b >= 1000 ==> bar_filled(r, b) == inside(r.w),
{
    let w = inside(r.w);
    let p = if a < 1000 { a as int } else { 1000 };
    let q = if b < 1000 { b as int } else { 1000 };
    assert(0 <= w * p <= w * q <= w * 1000) by (nonlinear_arith)
        requires
            0 <= w,
            0 <= p <= q <= 1000,
    ;
}

/// The card of a working screen.
pub open spec fn working_rect(s: Sheet) -> Rect {
    let (t, b, l) = (s.faces.title, s.faces.body, s.faces.label);
    let h = 28 + t.ascent + t.below + 8 + b.line_h + 20 + 16 + 10 + l.line_h + 28;
    crate::draw::rect(s.theme.margin as int, half(s.h - s.theme.rail_h - h), s.w - 2 * s.theme.margin, h)
}

/// What a working card draws.
pub open spec fn working_card_ops(
    s: Sheet,
    title: Seq<char>,
    subtitle: Seq<char>,
    permille: u32,
    status: Seq<char>,
) -> Seq<Op<Seq<char>>> {
    let card = working_rect(s);
    let (t, b, l) = (s.faces.title, s.faces.body, s.faces.label);
    let inner = card.w - 56;
    let y1 = card.y + 28 + t.ascent + t.below + 8;
    let y2 = y1 + b.line_h + 20;
    let y3 = y2 + 16 + 10;
    seq![
        Op::Fill(card, Ink::White),
        Op::Stroke(card, 2, Ink::Black),
        crate::draw::plain(Face::Title, card.x + 28, crate::draw::at(card.y + 28 + t.ascent), title, Some(inner), false),
        crate::draw::plain(Face::Body, card.x + 28, crate::draw::at(y1 + b.ascent), subtitle, Some(inner), false),
    ] + stepped_bar_ops(crate::draw::rect(card.x + 28, y2, inner, 16), permille) + seq![
        crate::draw::plain(Face::Mono, card.x + 28, crate::draw::at(y3 + l.ascent), status, Some(inner), false),
    ]
}

/// A working card: title, subtitle, stepped bar, mono status. Returns the card rect.
pub fn working_card(f: &mut Frame, title: &str, subtitle: &str, permille: u32, status: &str) -> (card: Rect)
    requires
        old(f).sheet.wf(),
    ensures
        card == working_rect(old(f).sheet),
        final(f).sheet == old(f).sheet,
        final(f)@ == old(f)@ + working_card_ops(old(f).sheet, title@, subtitle@, permille, status@),
{
    let w: i32 = f.width() as i32;
    let margin: i32 = f.sheet.theme.margin;
    let t = f.sheet.faces.title;
    let b = f.sheet.faces.body;
    let l = f.sheet.faces.label;
    let h: i32 = 28 + t.ascent + t.below + 8 + b.line_h + 20 + 16 + 10 + l.line_h + 28;
    let y: i32 = halve(f.height() as i32 - f.sheet.theme.rail_h - h);
    let card = Rect::new(margin, y, (w - 2 * margin) as u32, h as u32);
    f.fill_rect(card, Ink::White);
    f.stroke_rect(card, 2, Ink::Black);
    let inner: i32 = card.w as i32 - 56;
    f.text(Face::Title, card.x + 28, Base::At(card.y + 28 + t.ascent), title, Some(inner), false);
    let y1: i32 = card.y + 28 + t.ascent + t.below + 8;
    f.text(Face::Body, card.x + 28, Base::At(y1 + b.ascent), subtitle, Some(inner), false);
    let y2: i32 = y1 + b.line_h + 20;
    stepped_bar(f, Rect::new(card.x + 28, y2, inner as u32, 16), permille);
    let y3: i32 = y2 + 16 + 10;
    f.text(Face::Mono, card.x + 28, Base::At(y3 + l.ascent), status, Some(inner), false);
    assert(f@ =~= old(f)@ + working_card_ops(old(f).sheet, title@, subtitle@, permille, status@));
    card
}

/// What an empty state draws.
pub open spec fn empty_state_ops(s: Sheet, y: int, lines: Seq<Seq<char>>, hints: Seq<Seq<char>>) -> Seq<Op<Seq<char>>> {
    let (t, l) = (s.faces.title, s.faces.label);
    let cx = s.w as int / 2;
    centred_lines(Face::Title, cx, y + t.ascent, t.line_h as int, lines, lines.len() as int) + centred_lines(
        Face::Label,
        cx,
        y + lines.len() * t.line_h + 12 + l.ascent,
        l.line_h as int,
        hints,
        hints.len() as int,
    )
}

/// An empty state: a serif line, an 18 px hint (the rail shows the fixing action). Both are wrapped
/// to the width between the insets.
pub fn empty_state(f: &mut Frame, y: i32, lines: &Vec<String>, hints: &Vec<String>)
    requires
        old(f).sheet.wf(),
        crate::draw::sane(y as int),
        lines@.len() <= MAX_LINES,
        hints@.len() <= MAX_LINES,
    ensures
        final(f).sheet == old(f).sheet,
        final(f)@ == old(f)@ + empty_state_ops(old(f).sheet, y as int, text::texts(lines@), text::texts(hints@)),
{
    let cx: i32 = f.width() as i32 / 2;
    let t = f.sheet.faces.title;
    let l = f.sheet.faces.label;
    draw_centred_lines(f, Face::Title, cx, y + t.ascent, t.line_h, lines);
    let below: i32 = y + lines_h(lines.len(), t.line_h) + 12;
    draw_centred_lines(f, Face::Label, cx, below + l.ascent, l.line_h, hints);
    assert(f@ =~= old(f)@ + empty_state_ops(old(f).sheet, y as int, text::texts(lines@), text::texts(hints@)));
}

/// Screen an area with the 50 % dot pattern (the page beneath an overlay).
pub fn screen(f: &mut Frame, r: Rect)
    ensures
        final(f).sheet == old(f).sheet,
        final(f)@ == old(f)@.push(Op::Shade(r, Shade::Screened)),
{
    f.screen_rect(r, Shade::Screened);
}

/// What the status icons draw, from right to left.
pub open spec fn status_icons_ops(x_right: int, y: int, battery: Battery, wifi: bool) -> Seq<Op<Seq<char>>> {
    let x = x_right - 24;
    let x2 = if battery.charging { x - 28 } else { x };
    seq![Op::Icon(Icon::Battery(battery.percent), x as i32, y as i32, Ink::Black)] + (if battery.charging {
        seq![Op::Icon(Icon::Charging, x2 as i32, y as i32, Ink::Black)]
    } else {
        Seq::empty()
    }) + (if wifi {
        seq![Op::Icon(Icon::Wifi, (x2 - 28) as i32, y as i32, Ink::Black)]
    } else {
        Seq::empty()
    })
}

/// A battery and Wi-Fi status pair drawn at the top right (used by the Home layer and About).
pub fn status_icons(f: &mut Frame, x_right: i32, y: i32, battery: Battery, wifi: bool)
    requires
        crate::draw::sane(x_right as int),
    ensures
        final(f).sheet == old(f).sheet,
        final(f)@ == old(f)@ + status_icons_ops(x_right as int, y as int, battery, wifi),
{
    let mut x: i32 = x_right - 24;
    f.draw(Op::Icon(Icon::Battery(battery.percent), x, y, Ink::Black));
    if battery.charging {
        x = x - 28;
        f.draw(Op::Icon(Icon::Charging, x, y, Ink::Black));
    }
    if wifi {
        x = x - 28;
        f.draw(Op::Icon(Icon::Wifi, x, y, Ink::Black));
    }
    assert(f@ =~= old(f)@ + status_icons_ops(x_right as int, y as int, battery, wifi));
}

/// Where the longest end of a text that fits `width` starts; `widths` are the widths of the ends.
pub open spec fn tail_at(widths: Seq<i32>, width: int, from: int) -> int
    decreases widths.len() - from,
{
    if from >= widths.len() || widths[from] <= width {
        from
    } else {
        tail_at(widths, width, from + 1)
    }
}

/// The tail of `text` that fits `width` (for text fields). `widths` holds, for each character, the
/// width of the text from it on.
pub fn tail_fit(t: &str, widths: &Vec<i32>, width: i32) -> (r: String)
    requires
        widths@.len() == t@.len(),
    ensures
        0 <= tail_at(widths@, width as int, 0) <= t@.len(),
        r@ == t@.skip(tail_at(widths@, width as int, 0)),
{
    tail_from(t, widths, width).1
}

/// The tail of `text` that fits `width`, and where it starts.
fn tail_from(t: &str, widths: &Vec<i32>, width: i32) -> (r: (usize, String))
    requires
        widths@.len() == t@.len(),
    ensures
        r.0 == tail_at(widths@, width as int, 0),
        r.0 <= t@.len(),
        r.1@ == t@.skip(r.0 as int),
{
    let v = text::chars_of(t);
    let mut i: usize = 0;
    while i < widths.len() && widths[i] > width
        invariant
            i <= widths@.len(),
            tail_at(widths@, width as int, 0) == tail_at(widths@, width as int, i as int),
        decreases widths@.len() - i,
    {
        i += 1;
    }
    let r = text::text_of(&v, i, v.len());
    assert(r@ =~= t@.skip(i as int));
    (i, r)
}

/// The width of the longest end of a text that fits `width`.
pub open spec fn tail_width(widths: Seq<i32>, width: int) -> int {
    let k = tail_at(widths, width, 0);
    if k < widths.len() {
        widths[k] as int
    } else {
        0
    }
}

proof fn lemma_tail_at(widths: Seq<i32>, width: int, from: int)
    requires
        0 <= from <= widths.len(),
    ensures
        from <= tail_at(widths, width, from) <= widths.len(),
        tail_at(widths, width, from) < widths.len() ==> widths[tail_at(widths, width, from)] <= width,
        forall|i: int| from <= i < tail_at(widths, width, from) ==> #[trigger] widths[i] > width,
    decreases widths.len() - from,
{
    if from < widths.len() && widths[from] > width {
        lemma_tail_at(widths, width, from + 1);
    }
}

/// What is shown of a text that does not fit is its end: the tail fits, and one character more would
/// not.
pub proof fn law_the_tail_is_the_longest_that_fits(t: Seq<char>, widths: Seq<i32>, width: int)
    requires
        widths.len() == t.len(),
    ensures
        t.skip(tail_at(widths, width, 0)).is_suffix_of(t),
        0 <= width ==> tail_width(widths, width) <= width,
        forall|i: int| 0 <= i < tail_at(widths, width, 0) ==> #[trigger] widths[i] > width,
{
    lemma_tail_at(widths, width, 0);
    let k = tail_at(widths, width, 0);
    assert(t.skip(k) =~= t.subrange(t.len() - t.skip(k).len(), t.len() as int));
}

/// What a text field draws; `widths` holds, for each character of the text, the width of the text from
/// it on.
pub open spec fn text_field_ops(r: Rect, t: Seq<char>, widths: Seq<i32>, hint: Seq<char>, focused: bool) -> Seq<Op<Seq<char>>> {
    let caret_h = if r.h >= 16 { r.h - 16 } else { 0 };
    let band = crate::draw::mid(r.y as int, r.h as int);
    let shown = t.skip(tail_at(widths, r.w - 24, 0));
    seq![Op::Fill(r, Ink::White)] + (if t.len() == 0 {
        seq![crate::draw::plain(Face::Label, r.x + 8 + (if focused { 8int } else { 0 }), band, hint, None, false)]
    } else {
        seq![crate::draw::plain(Face::ListTitle, r.x + 8, band, shown, None, false)]
    }) + (if focused {
        seq![
            crate::draw::fill(
                if t.len() == 0 { r.x + 8 } else { r.x + 8 + tail_width(widths, r.w - 24) + 2 },
                r.y + 8,
                2,
                caret_h,
                Ink::Black,
            ),
        ]
    } else {
        Seq::empty()
    }) + seq![crate::draw::fill(r.x as int, r.bottom_edge() - 2, r.w as int, 2, Ink::Black)]
}

/// A text field: 2 px rule beneath, caret, hint when empty. `widths` holds, for each character of the
/// text, the width of the text from it on. The caret stands before the hint, not on its first letter.
pub fn text_field(f: &mut Frame, r: Rect, t: &str, widths: &Vec<i32>, hint: &str, focused: bool)
    requires
        r.sane(),
        widths@.len() == t@.len(),
        forall|i: int| 0 <= i < widths@.len() ==> 0 <= #[trigger] widths@[i],
    ensures
        final(f).sheet == old(f).sheet,
        final(f)@ == old(f)@ + text_field_ops(r, t@, widths@, hint@, focused),
{
    f.fill_rect(r, Ink::White);
    let caret_h: u32 = if r.h >= 16 { r.h - 16 } else { 0 };
    let band = Base::Mid(r.y, r.h as i32);
    if t.is_empty() {
        let hx: i32 = r.x + 8 + (if focused { 8 } else { 0 });
        f.text(Face::Label, hx, band, hint, None, false);
        if focused {
            f.fill_rect(Rect::new(r.x + 8, r.y + 8, 2, caret_h), Ink::Black);
        }
    } else {
        let room: i32 = r.w as i32 - 24;
        let (k, shown) = tail_from(t, widths, room);
        proof {
            lemma_tail_at(widths@, room as int, 0);
        }
        let end: i32 = if k < widths.len() { widths[k] } else { 0 };
        f.text(Face::ListTitle, r.x + 8, band, &shown, None, false);
        if focused {
            f.fill_rect(Rect::new(r.x + 8 + end + 2, r.y + 8, 2, caret_h), Ink::Black);
        }
    }
    f.fill_rect(Rect::new(r.x, r.bottom() - 2, r.w, 2), Ink::Black);
    assert(f@ =~= old(f)@ + text_field_ops(r, t@, widths@, hint@, focused));
}

/// A calendar heat map cell's fill.
pub open spec fn heat_fill_ops(r: Rect, fraction: u8) -> Seq<Op<Seq<char>>> {
    seq![Op::Fill(r, Ink::White)] + (if fraction == 0 {
        Seq::empty()
    } else if fraction <= 37 {
        seq![Op::Pattern(r, Pattern::Sparse)]
    } else if fraction <= 87 {
        seq![Op::Pattern(r, Pattern::Dots50)]
    } else {
        seq![Op::Fill(r, Ink::Black)]
    })
}

/// A calendar heat map cell fill for a goal fraction: 0 / 25 / 50 / 100 %.
pub fn heat_fill(f: &mut Frame, r: Rect, fraction: u8)
    ensures
        final(f).sheet == old(f).sheet,
        final(f)@ == old(f)@ + heat_fill_ops(r, fraction),
{
    f.fill_rect(r, Ink::White);
    if fraction == 0 {
    } else if fraction <= 37 {
        f.pattern_rect(r, Pattern::Sparse);
    } else if fraction <= 87 {
        f.pattern_rect(r, Pattern::Dots50);
    } else {
        f.fill_rect(r, Ink::Black);
    }
    assert(f@ =~= old(f)@ + heat_fill_ops(r, fraction));
}

/// The rectangle a fill, a frame, a pattern or a screen covers.
pub open spec fn covered(op: Op<Seq<char>>) -> Option<Rect> {
    match op {
        Op::Fill(r, _) => Some(r),
        Op::Stroke(r, _, _) => Some(r),
        Op::Pattern(r, _) => Some(r),
        Op::Shade(r, _) => Some(r),
        _ => None,
    }
}

/// Whether what an op covers lies between these columns and rows.
pub open spec fn within(op: Op<Seq<char>>, left: int, top: int, right: int, bottom: int) -> bool {
    covered(op) matches Some(r) ==> left <= r.x && top <= r.y && r.right_edge() <= right && r.bottom_edge() <= bottom
}

/// The rail covers nothing but its own strip at the bottom of the panel.
pub proof fn law_rail_keeps_to_its_strip(s: Sheet, labels: Seq<Seq<char>>, focused: Option<int>, k: int)
    requires
        s.wf(),
        s.theme.rail_h >= RULE_HEAVY + 4,
        0 <= k < rail_ops(s, labels, focused).len(),
    ensures
        within(rail_ops(s, labels, focused)[k], 0, s.h - s.theme.rail_h, s.w as int, s.h as int),
{
    let (a, b, c, d) = (
        rail_cell_ops(s, 0, labels[0], focused == Some(0int)),
        rail_cell_ops(s, 1, labels[1], focused == Some(1int)),
        rail_cell_ops(s, 2, labels[2], focused == Some(2int)),
        rail_cell_ops(s, 3, labels[3], focused == Some(3int)),
    );
    let n = 2 + a.len();
    if k < 2 {
    } else if k < n {
        assert(rail_ops(s, labels, focused)[k] == a[k - 2]);
    } else if k < n + b.len() {
        assert(rail_ops(s, labels, focused)[k] == b[k - n]);
    } else if k < n + b.len() + c.len() {
        assert(rail_ops(s, labels, focused)[k] == c[k - n - b.len()]);
    } else {
        assert(rail_ops(s, labels, focused)[k] == d[k - n - b.len() - c.len()]);
    }
}

/// A running head's rule keeps clear of both insets.
pub proof fn law_running_head_keeps_the_insets(s: Sheet, title: Seq<char>, right: Option<(Seq<char>, int)>, k: int)
    requires
        s.wf(),
        0 <= k < running_head_ops(s, title, right).len(),
    ensures
        within(
            running_head_ops(s, title, right)[k],
            INSET as int,
            HEAD_RULE_Y as int,
            s.w - INSET,
            HEAD_RULE_Y + RULE_HEAVY,
        ),
{
}

/// Nothing of a side label reaches the last two columns on either side.
pub proof fn law_side_labels_keep_off_the_edge(
    s: Sheet,
    up: Option<(Seq<char>, int)>,
    down: Option<(Seq<char>, int)>,
    k: int,
)
    requires
        s.wf(),
        s.w >= 24 + 2 * s.faces.mono.line_h,
        up matches Some(u) ==> 0 <= u.1 <= 0x10_0000 && side_fits(s, side_centre(), u.1),
        down matches Some(d) ==> 0 <= d.1 <= 0x10_0000 && side_fits(s, side_centre(), d.1),
        0 <= k < side_labels_ops(s, up, down).len(),
    ensures
        covered(side_labels_ops(s, up, down)[k]) matches Some(r) ==> 2 <= r.x && r.right_edge() <= s.w - 2,
{
    let a = match up {
        Some(u) => side_label_ops(s, side_centre(), u, false, true),
        None => Seq::empty(),
    };
    let b = match down {
        Some(d) => side_label_ops(s, side_centre(), d, false, false),
        None => Seq::empty(),
    };
    if k < a.len() {
        assert(side_labels_ops(s, up, down)[k] == a[k]);
    } else {
        assert(side_labels_ops(s, up, down)[k] == b[k - a.len()]);
    }
}

/// Side labels face each other: both stand at the same height, one at either edge, between the
/// running head and the rail, and their ticks lie in the band that both keys share.
pub proof fn law_side_labels_face_each_other(s: Sheet, width: int)
    requires
        s.wf(),
        0 <= width <= 0x10_0000,
        side_fits(s, side_centre(), width),
    ensures
        side_plate(s, side_centre(), width, true).y == side_plate(s, side_centre(), width, false).y,
        side_plate(s, side_centre(), width, true).bottom_edge() <= s.h - s.theme.rail_h - 6,
        CONTENT_TOP <= side_plate(s, side_centre(), width, true).y,
        SIDE_Y <= side_centre() - 12,
        side_centre() + 12 <= SIDE_Y + SIDE_H,
{
}

/// Nothing of a row lies outside its own band.
pub proof fn law_row_keeps_to_its_band(
    s: Sheet,
    y: int,
    h: int,
    title: Seq<char>,
    subtitle: Option<Seq<char>>,
    value: Option<(Seq<char>, int)>,
    state: RowState,
    k: int,
)
    requires
        s.wf(),
        crate::draw::sane(y),
        0 < h <= 0x1_0000,
        4 <= s.w,
        0 <= k < row_ops(s, y, h, title, subtitle, value, state).len(),
    ensures
        within(row_ops(s, y, h, title, subtitle, value, state)[k], 0, y, s.w as int, y + h),
{
    let end = row_end_ops(s, y, h, state);
    let all = row_ops(s, y, h, title, subtitle, value, state);
    let n = all.len() - end.len();
    if k >= n {
        assert(all[k] == end[k - n]);
    }
}

/// Whether a text that is shortened, or ends at its x, ends by this x; where it starts and how wide it is at most
/// says so.
pub open spec fn ends_by(op: Op<Seq<char>>, limit: int) -> bool {
    match op {
        Op::Text(t) => match (t.place, t.fit) {
            (Place::Start, Some(n)) => t.x + n <= limit,
            (Place::End, _) => t.x <= limit,
            _ => true,
        },
        _ => true,
    }
}

/// The texts of a row end by its right margin: its value on it, what is shortened before it.
pub proof fn law_row_texts_end_by_the_margin(
    s: Sheet,
    y: int,
    h: int,
    title: Seq<char>,
    subtitle: Option<Seq<char>>,
    value: Option<(Seq<char>, int)>,
    state: RowState,
    k: int,
)
    requires
        s.wf(),
        crate::draw::sane(y),
        0 < h <= 0x1_0000,
        value matches Some(v) ==> 0 <= v.1 <= 0x10_0000,
        0 <= k < row_ops(s, y, h, title, subtitle, value, state).len(),
    ensures
        ends_by(row_ops(s, y, h, title, subtitle, value, state)[k], s.w - s.theme.row_pad),
        value matches Some(v) ==> (row_ops(s, y, h, title, subtitle, value, state)[1] matches Op::Text(t) && t.text == v.0
            && t.x + v.1 == s.w - s.theme.row_pad),
{
    let end = row_end_ops(s, y, h, state);
    let all = row_ops(s, y, h, title, subtitle, value, state);
    let n = all.len() - end.len();
    if k >= n {
        assert(all[k] == end[k - n]);
    }
}

/// The texts of a running head end by the right inset.
pub proof fn law_head_texts_end_by_the_inset(s: Sheet, title: Seq<char>, right: Option<(Seq<char>, int)>, k: int)
    requires
        s.wf(),
        right matches Some(r) ==> 0 <= r.1 <= 0x10_0000,
        0 <= k < running_head_ops(s, title, right).len(),
    ensures
        ends_by(running_head_ops(s, title, right)[k], s.w - INSET),
{
}

/// Every label of the rail is written over its key: the first in the first quarter of the width, and so on; the one in
/// focus in white, and no other.
pub proof fn law_rail_labels_stand_over_their_keys(s: Sheet, labels: Seq<Seq<char>>, focused: Option<int>, i: int)
    requires
        s.wf(),
        0 <= i < 4,
        labels[i].len() > 0,
        labels[i] != "—"@,
    ensures
        crate::draw::shows_between(
            rail_ops(s, labels, focused),
            labels[i],
            i * (s.w as int / 4),
            (i + 1) * (s.w as int / 4),
        ),
        crate::draw::written(rail_cell_ops(s, i, labels[i], focused == Some(i)), focused == Some(i)),
        crate::draw::shows(rail_cell_ops(s, i, labels[i], focused == Some(i)), labels[i]),
{
    broadcast use {
        crate::draw::lemma_shows_in_two,
        crate::draw::lemma_shows_pushed,
        crate::draw::lemma_shows_between_two,
        crate::draw::lemma_shows_between_pushed,
        crate::draw::lemma_written_in_two,
        crate::draw::lemma_written_pushed,
        crate::draw::lemma_draws_in_two,
        crate::draw::lemma_draws_pushed,
    };
    let cell = s.w as int / 4;
    assert(0 <= cell <= 0x4000);
    assert(i * cell + cell / 2 <= (i + 1) * cell && 0 <= i * cell && (i + 1) * cell <= 0x1_0000) by (nonlinear_arith)
        requires
            0 <= i < 4,
            0 <= cell <= 0x4000,
    ;
    assert(crate::draw::shows_between(
        rail_cell_ops(s, i, labels[i], focused == Some(i)),
        labels[i],
        i * cell,
        (i + 1) * cell,
    ));
}

/// A row says its title, its second line and its value, and nothing is written in the wrong ink: white on black where
/// it has the focus, black on white where not.
pub proof fn law_rows_say_what_they_are_given(
    s: Sheet,
    y: int,
    h: int,
    title: Seq<char>,
    subtitle: Option<Seq<char>>,
    value: Option<(Seq<char>, int)>,
    state: RowState,
)
    ensures
        ({
            let ops = row_ops(s, y, h, title, subtitle, value, state);
            &&& crate::draw::shows(ops, title)
            &&& subtitle matches Some(t) ==> crate::draw::shows(ops, t)
            &&& value matches Some(v) ==> crate::draw::shows(ops, v.0)
            &&& crate::draw::written(ops, state == RowState::Focused)
            &&& ops[0] == crate::draw::fill(0, y, s.w as int, h, if state == RowState::Focused { Ink::Black } else { Ink::White })
            &&& state == RowState::Disabled <==> crate::draw::draws(
                ops,
                Op::Shade(crate::draw::rect(0, y, s.w as int, h - 1), Shade::Disabled),
            )
            &&& state == RowState::Selected ==> crate::draw::draws(ops, crate::draw::fill(0, y, 4, h, Ink::Black))
        }),
{
    broadcast use {
        crate::draw::lemma_shows_in_two,
        crate::draw::lemma_shows_pushed,
        crate::draw::lemma_shows_between_two,
        crate::draw::lemma_shows_between_pushed,
        crate::draw::lemma_written_in_two,
        crate::draw::lemma_written_pushed,
        crate::draw::lemma_draws_in_two,
        crate::draw::lemma_draws_pushed,
    };
}

/// A row with a picture says its title, its second line and its value, in white where it has the focus.
pub proof fn law_picture_rows_say_what_they_are_given(
    s: Sheet,
    y: int,
    picture: Option<Bitmap>,
    title: Seq<char>,
    subtitle: Seq<char>,
    value: Option<(Seq<char>, int)>,
    state: RowState,
)
    ensures
        ({
            let ops = row_thumb_ops(s, y, picture, title, subtitle, value, state);
            &&& crate::draw::shows(ops, title)
            &&& crate::draw::shows(ops, subtitle)
            &&& value matches Some(v) ==> crate::draw::shows(ops, v.0)
            &&& picture is None ==> crate::draw::written(ops, state == RowState::Focused)
            &&& ops[0] == crate::draw::fill(0, y, s.w as int, 88, if state == RowState::Focused { Ink::Black } else { Ink::White })
        }),
{
    broadcast use {
        crate::draw::lemma_shows_in_two,
        crate::draw::lemma_shows_pushed,
        crate::draw::lemma_shows_between_two,
        crate::draw::lemma_shows_between_pushed,
        crate::draw::lemma_written_in_two,
        crate::draw::lemma_written_pushed,
        crate::draw::lemma_draws_in_two,
        crate::draw::lemma_draws_pushed,
    };
}

/// A setting says its title and its value: a stepper between two arrows, a choice before one, a text as it is. A switch
/// stands to the right where it is on and to the left where it is off.
pub proof fn law_settings_say_their_value(s: Sheet, y: int, h: int, title: Seq<char>, v: String, tw: int, state: RowState)
    requires
        s.wf(),
        0 <= tw <= 0x1_0000,
        64 <= s.w - 2 * s.theme.row_pad,
    ensures
        ({
            let row = |value: SettingValue| setting_row_ops(s, y, h, title, value, tw, state);
            let inv = state == RowState::Focused;
            let right = s.w - s.theme.row_pad;
            &&& crate::draw::shows(row(SettingValue::Stepper(v)), "‹ "@ + v@ + " ›"@)
            &&& crate::draw::shows(row(SettingValue::Choice(v)), v@ + " ›"@)
            &&& crate::draw::shows(row(SettingValue::Text(v)), v@)
            &&& crate::draw::shows(row(SettingValue::Slider(0, v)), v@)
            &&& crate::draw::shows(row(SettingValue::Nav), title) && crate::draw::shows(row(SettingValue::Text(v)), title)
                && crate::draw::shows(row(SettingValue::Toggle(true)), title)
            &&& crate::draw::written(row(SettingValue::Stepper(v)), inv) && crate::draw::written(row(SettingValue::Nav), inv)
            &&& setting_value_ops(s, y, h, SettingValue::Toggle(true), tw, inv)[1] matches Op::Fill(on, _) && setting_value_ops(
                s,
                y,
                h,
                SettingValue::Toggle(false),
                tw,
                inv,
            )[1] matches Op::Fill(off, _) && off.x + 28 == on.x && on.w == off.w && off.x >= right - 56 && on.x + on.w <= right
        }),
{
    broadcast use {
        crate::draw::lemma_shows_in_two,
        crate::draw::lemma_shows_pushed,
        crate::draw::lemma_shows_between_two,
        crate::draw::lemma_shows_between_pushed,
        crate::draw::lemma_written_in_two,
        crate::draw::lemma_written_pushed,
        crate::draw::lemma_draws_in_two,
        crate::draw::lemma_draws_pushed,
    };
}

/// The knob of a slider goes from the left end of its bar to the right end as its position grows.
pub proof fn law_slider_goes_along_its_bar(s: Sheet, y: int, h: int, v: String, tw: int, inv: bool, a: u16, b: u16)
    requires
        s.wf(),
        0 <= tw <= 0x1_0000,
        a <= b,
    ensures
        ({
            let knob = |pos: u16| setting_value_ops(s, y, h, SettingValue::Slider(pos, v), tw, inv)[2];
            let bar = s.w - s.theme.row_pad - tw - 14 - 180;
            &&& knob(a) matches Op::Fill(p, _) && knob(b) matches Op::Fill(q, _) && p.x <= q.x && bar <= p.x && q.x + 16 <= bar + 180
            &&& a == 0 ==> knob(a)->Fill_0.x == bar
            &&& b >= 1000 ==> knob(b)->Fill_0.x + 16 == bar + 180
        }),
{
}

/// What is written under a cover: the author, and behind it how much is read, where something is; a book read to its
/// end says so.
pub proof fn law_covers_say_how_far(author: Seq<char>, p: u8)
    requires
        author.len() > 0,
    ensures
        cover_line(author, None) == author,
        cover_line(author, Some(0)) == author,
        0 < p < 100 ==> cover_line(author, Some(p)) == author + " · "@ + (text::decimal(p as nat) + "%"@),
        0 < p < 100 ==> cover_line(Seq::empty(), Some(p)) == text::decimal(p as nat) + "%"@,
        cover_line(author, Some(100)) == author + " · "@ + "finished"@,
        cover_line(Seq::empty(), None).len() == 0,
{
    reveal_strlit("finished");
    reveal_strlit("%");
    text::law_decimal_reads_back(p as nat);
}

/// A cover in the grid is framed, thicker where it has the focus, with its title and what is read under it.
pub proof fn law_cover_cells_say_their_title(
    s: Sheet,
    x: int,
    y: int,
    art: CoverArt,
    title: Seq<char>,
    author: Seq<char>,
    focused: bool,
    percent: Option<u8>,
)
    ensures
        ({
            let ops = cover_cell_ops(s, x, y, art, title, author, focused, percent);
            let r = crate::draw::rect(x, y, 152, 228);
            &&& crate::draw::shows(ops, title) && crate::draw::shows(ops, cover_line(author, percent))
            &&& focused ==> crate::draw::draws(ops, Op::Stroke(r, 6, Ink::Black))
            &&& !focused ==> crate::draw::draws(ops, Op::Stroke(r, 2, Ink::Black))
        }),
{
    broadcast use {
        crate::draw::lemma_shows_in_two,
        crate::draw::lemma_shows_pushed,
        crate::draw::lemma_shows_between_two,
        crate::draw::lemma_shows_between_pushed,
        crate::draw::lemma_written_in_two,
        crate::draw::lemma_written_pushed,
        crate::draw::lemma_draws_in_two,
        crate::draw::lemma_draws_pushed,
    };
}

/// The lines of a text are all written, one under the other.
pub proof fn law_lines_are_all_written(face: Face, x: int, y: int, line_h: int, lines: Seq<Seq<char>>, n: int, k: int)
    requires
        0 <= k < n <= lines.len(),
    ensures
        crate::draw::shows(plain_lines(face, x, y, line_h, lines, n), lines[k]),
        crate::draw::shows(centred_lines(face, x, y, line_h, lines, n), lines[k]),
        plain_lines(face, x, y, line_h, lines, n)[k] == crate::draw::plain(
            face,
            x,
            crate::draw::at(y + k * line_h),
            lines[k],
            None,
            false,
        ),
        plain_lines(face, x, y, line_h, lines, n).len() == n,
    decreases n,
{
    broadcast use {
        crate::draw::lemma_shows_in_two,
        crate::draw::lemma_shows_pushed,
        crate::draw::lemma_shows_between_two,
        crate::draw::lemma_shows_between_pushed,
        crate::draw::lemma_written_in_two,
        crate::draw::lemma_written_pushed,
        crate::draw::lemma_draws_in_two,
        crate::draw::lemma_draws_pushed,
    };
    if k < n - 1 {
        law_lines_are_all_written(face, x, y, line_h, lines, n - 1, k);
    } else if n > 1 {
        law_lines_are_all_written(face, x, y, line_h, lines, n - 1, 0);
    }
}

/// A dialog says its title and every line, and offers to cancel over the second key and to go on over the third.
pub proof fn law_dialogs_offer_to_cancel(s: Sheet, title: Seq<char>, lines: Seq<Seq<char>>, cancel: Seq<char>, confirm: Seq<char>, k: int)
    requires
        s.wf(),
        0 <= k < lines.len(),
        cancel.len() > 0,
        confirm.len() > 0,
        4 <= dialog_card(s, lines.len() as int).w <= 0x1_0000,
    ensures
        ({
            let ops = dialog_ops(s, title, lines, cancel, confirm);
            let card = dialog_card(s, lines.len() as int);
            let cell = (card.w - 4) / 4;
            &&& crate::draw::shows(ops, title) && crate::draw::shows(ops, lines[k])
            &&& crate::draw::shows_between(ops, cancel, card.x + 2 + cell, card.x + 2 + 2 * cell)
            &&& crate::draw::shows_between(ops, confirm, card.x + 2 + 2 * cell, card.x + 2 + 3 * cell)
        }),
{
    broadcast use {
        crate::draw::lemma_shows_in_two,
        crate::draw::lemma_shows_pushed,
        crate::draw::lemma_shows_between_two,
        crate::draw::lemma_shows_between_pushed,
        crate::draw::lemma_written_in_two,
        crate::draw::lemma_written_pushed,
        crate::draw::lemma_draws_in_two,
        crate::draw::lemma_draws_pushed,
    };
    let card = dialog_card(s, lines.len() as int);
    let (t, b) = (s.faces.title, s.faces.body);
    law_lines_are_all_written(
        Face::Body,
        card.x + 28,
        card.y + 28 + t.ascent + t.below + 12 + b.ascent,
        b.line_h as int,
        lines,
        lines.len() as int,
        k,
    );
    let cell = (card.w - 4) / 4;
    assert(card.x == s.theme.margin);
    assert(crate::draw::shows_between(dialog_cell_ops(s, card, 1, cancel), cancel, card.x + 2 + cell, card.x + 2 + 2 * cell));
    assert(crate::draw::shows_between(dialog_cell_ops(s, card, 2, confirm), confirm, card.x + 2 + 2 * cell, card.x + 2 + 3 * cell));
}

/// The card that says what is being done has its title, what it is done to, and how far it is.
pub proof fn law_working_cards_say_how_far(s: Sheet, title: Seq<char>, subtitle: Seq<char>, permille: u32, status: Seq<char>)
    ensures
        crate::draw::shows(working_card_ops(s, title, subtitle, permille, status), title),
        crate::draw::shows(working_card_ops(s, title, subtitle, permille, status), subtitle),
        crate::draw::shows(working_card_ops(s, title, subtitle, permille, status), status),
{
    broadcast use {
        crate::draw::lemma_shows_in_two,
        crate::draw::lemma_shows_pushed,
        crate::draw::lemma_shows_between_two,
        crate::draw::lemma_shows_between_pushed,
        crate::draw::lemma_written_in_two,
        crate::draw::lemma_written_pushed,
        crate::draw::lemma_draws_in_two,
        crate::draw::lemma_draws_pushed,
    };
}

/// The head of a screen has its title and what stands at its right; that of a page leaves the right out where it would
/// only repeat the left.
pub proof fn law_heads_say_their_title(s: Sheet, title: Seq<char>, right: Option<(Seq<char>, int)>, left: Seq<char>, other: Seq<char>)
    ensures
        crate::draw::shows(running_head_ops(s, title, right), title),
        right matches Some(r) ==> crate::draw::shows(running_head_ops(s, title, right), r.0),
        reading_right_text(left, left).len() == 0,
        text::ascii_lower(text::trimmed(other)) != text::ascii_lower(text::trimmed(left)) ==> reading_right_text(left, other) == other,
{
    broadcast use {
        crate::draw::lemma_shows_in_two,
        crate::draw::lemma_shows_pushed,
        crate::draw::lemma_shows_between_two,
        crate::draw::lemma_shows_between_pushed,
        crate::draw::lemma_written_in_two,
        crate::draw::lemma_written_pushed,
        crate::draw::lemma_draws_in_two,
        crate::draw::lemma_draws_pushed,
    };
}

/// The icons say what holds: the charge, that the reader is charging, and that the radio is on; they stand side by side
/// from the right.
pub proof fn law_icons_say_how_things_stand(x_right: int, y: int, battery: Battery, wifi: bool)
    requires
        100 <= x_right <= 0x10_0000,
        0 <= y <= 0x10_0000,
    ensures
        ({
            let ops = status_icons_ops(x_right, y, battery, wifi);
            let n = 1 + (if battery.charging { 1int } else { 0 }) + (if wifi { 1int } else { 0 });
            &&& ops.len() == n
            &&& ops[0] == Op::<Seq<char>>::Icon(Icon::Battery(battery.percent), (x_right - 24) as i32, y as i32, Ink::Black)
            &&& battery.charging ==> (ops[1] matches Op::Icon(i, _, _, _) && i == Icon::Charging)
            &&& wifi ==> (ops[n - 1] matches Op::Icon(i, x, _, _) && i == Icon::Wifi && x == x_right - 24 - 28 * (n - 1))
        }),
{
}

/// A field shows its hint only while it is empty, else the end of its text that fits, and a caret only where it has the
/// focus.
pub proof fn law_fields_show_text_or_hint(r: Rect, t: Seq<char>, widths: Seq<i32>, hint: Seq<char>)
    requires
        widths.len() == t.len(),
    ensures
        t.len() == 0 ==> crate::draw::shows(text_field_ops(r, t, widths, hint, true), hint),
        t.len() > 0 ==> crate::draw::shows(
            text_field_ops(r, t, widths, hint, true),
            t.skip(tail_at(widths, r.w - 24, 0)),
        ),
        t.len() > 0 && widths[0] <= r.w - 24 ==> crate::draw::shows(text_field_ops(r, t, widths, hint, true), t),
        text_field_ops(r, t, widths, hint, true).len() == text_field_ops(r, t, widths, hint, false).len() + 1,
{
    broadcast use {
        crate::draw::lemma_shows_in_two,
        crate::draw::lemma_shows_pushed,
        crate::draw::lemma_shows_between_two,
        crate::draw::lemma_shows_between_pushed,
        crate::draw::lemma_written_in_two,
        crate::draw::lemma_written_pushed,
        crate::draw::lemma_draws_in_two,
        crate::draw::lemma_draws_pushed,
    };
    reveal_with_fuel(tail_at, 2);
    assert(t.skip(0) =~= t);
}

/// A square of the heat map is the darker the more was read: white for nothing, then two patterns, then black.
pub proof fn law_heat_grows_darker(r: Rect, fraction: u8)
    ensures
        fraction == 0 ==> heat_fill_ops(r, fraction) == seq![Op::<Seq<char>>::Fill(r, Ink::White)],
        0 < fraction <= 37 ==> heat_fill_ops(r, fraction)[1] == Op::<Seq<char>>::Pattern(r, Pattern::Sparse),
        37 < fraction <= 87 ==> heat_fill_ops(r, fraction)[1] == Op::<Seq<char>>::Pattern(r, Pattern::Dots50),
        fraction > 87 ==> heat_fill_ops(r, fraction)[1] == Op::<Seq<char>>::Fill(r, Ink::Black),
        heat_fill_ops(r, fraction)[0] == Op::<Seq<char>>::Fill(r, Ink::White),
{
}

/// The label for Up stands at the left edge and that for Down at the right, each written upward.
pub proof fn law_side_labels_stand_at_their_edges(s: Sheet, up: (Seq<char>, int), down: (Seq<char>, int))
    requires
        s.wf(),
        s.w >= 400,
    ensures
        ({
            let ops = side_labels_ops(s, Some(up), Some(down));
            &&& ops.len() == 6
            &&& ops[1] matches Op::Upward(t) && t.text == up.0 && t.x < s.w / 2 + 0x2000
            &&& ops[4] matches Op::Upward(t) && t.text == down.0
            &&& ops[0] matches Op::Fill(a, _) && ops[3] matches Op::Fill(b, _) && a.x == 10 && b.x + b.w == s.w - 10
            &&& side_labels_ops(s, None, None).len() == 0
        }),
{
}

/// A tile says its number and what is counted, and a poster too.
pub proof fn law_tiles_say_what_is_counted(s: Sheet, x: int, y: int, cw: int, i: int, n: int, cols: int, tile: Tile, hero: bool)
    ensures
        crate::draw::shows(tile_ops(s, x, y, cw, i, n, cols, tile), tile.value.text@),
        crate::draw::shows(tile_ops(s, x, y, cw, i, n, cols, tile), tile.label@),
        crate::draw::shows(poster_centered_ops(s, x, y, tile.value.text@, tile.label@, hero), tile.value.text@),
        crate::draw::shows(poster_centered_ops(s, x, y, tile.value.text@, tile.label@, hero), tile.label@),
{
    broadcast use {
        crate::draw::lemma_shows_in_two,
        crate::draw::lemma_shows_pushed,
        crate::draw::lemma_shows_between_two,
        crate::draw::lemma_shows_between_pushed,
        crate::draw::lemma_written_in_two,
        crate::draw::lemma_written_pushed,
        crate::draw::lemma_draws_in_two,
        crate::draw::lemma_draws_pushed,
    };
    reveal(tile_ops);
    let ops = tile_ops(s, x, y, cw, i, n, cols, tile);
    assert(crate::draw::says(ops[0], tile.value.text@));
    assert(crate::draw::says(ops[1], tile.label@));
}

/// A list of tiles says every tile.
pub proof fn law_every_tile_is_drawn(s: Sheet, x: int, y: int, cw: int, cols: int, tiles: Seq<Tile>, k: int, i: int)
    requires
        0 <= i < k <= tiles.len(),
    ensures
        crate::draw::shows(tiles_ops(s, x, y, cw, cols, tiles, k), tiles[i].value.text@),
        crate::draw::shows(tiles_ops(s, x, y, cw, cols, tiles, k), tiles[i].label@),
    decreases k,
{
    broadcast use {
        crate::draw::lemma_shows_in_two,
        crate::draw::lemma_shows_pushed,
        crate::draw::lemma_shows_between_two,
        crate::draw::lemma_shows_between_pushed,
        crate::draw::lemma_written_in_two,
        crate::draw::lemma_written_pushed,
        crate::draw::lemma_draws_in_two,
        crate::draw::lemma_draws_pushed,
    };
    law_tiles_say_what_is_counted(s, x, y, cw, k - 1, tiles.len() as int, cols, tiles[k - 1], false);
    if i < k - 1 {
        law_every_tile_is_drawn(s, x, y, cw, cols, tiles, k - 1, i);
    }
}

/// A screen with nothing on it says so, line by line, and what can be done.
pub proof fn law_empty_screens_say_so(s: Sheet, y: int, lines: Seq<Seq<char>>, hints: Seq<Seq<char>>, i: int, k: int)
    requires
        0 <= i < lines.len(),
        0 <= k < hints.len(),
    ensures
        crate::draw::shows(empty_state_ops(s, y, lines, hints), lines[i]),
        crate::draw::shows(empty_state_ops(s, y, lines, hints), hints[k]),
{
    broadcast use {
        crate::draw::lemma_shows_in_two,
        crate::draw::lemma_shows_pushed,
        crate::draw::lemma_shows_between_two,
        crate::draw::lemma_shows_between_pushed,
        crate::draw::lemma_written_in_two,
        crate::draw::lemma_written_pushed,
        crate::draw::lemma_draws_in_two,
        crate::draw::lemma_draws_pushed,
    };
    let (t, l) = (s.faces.title, s.faces.label);
    let cx = s.w as int / 2;
    law_lines_are_all_written(Face::Title, cx, y + t.ascent, t.line_h as int, lines, lines.len() as int, i);
    law_lines_are_all_written(
        Face::Label,
        cx,
        y + lines.len() * t.line_h + 12 + l.ascent,
        l.line_h as int,
        hints,
        hints.len() as int,
        k,
    );
}

/// A cover without a picture has the lines of its title, the last with an ellipsis where they do not all fit, and the
/// author where there is room.
pub proof fn law_plates_say_title_and_author(s: Sheet, r: Rect, face: Face, lines: Seq<Seq<char>>, author: Seq<char>, k: int)
    requires
        0 <= k,
    ensures
        ({
            let p = cover_plan(s, r, face, lines.len() as int, author.len() > 0);
            let ops = plate_ops(s, r, face, lines, author);
            &&& !p.cut && k < p.n && p.n <= lines.len() ==> crate::draw::shows(ops, lines[k])
            &&& p.cut && k < p.n - 1 && p.n <= lines.len() ==> crate::draw::shows(ops, lines[k])
            &&& p.cut ==> crate::draw::shows(ops, lines[p.n - 1] + "…"@)
            &&& p.with_author ==> crate::draw::shows(ops, author)
        }),
{
    broadcast use {
        crate::draw::lemma_shows_in_two,
        crate::draw::lemma_shows_pushed,
        crate::draw::lemma_shows_between_two,
        crate::draw::lemma_shows_between_pushed,
        crate::draw::lemma_written_in_two,
        crate::draw::lemma_written_pushed,
        crate::draw::lemma_draws_in_two,
        crate::draw::lemma_draws_pushed,
    };
    let p = cover_plan(s, r, face, lines.len() as int, author.len() > 0);
    let lh = if face == Face::Body { s.faces.body.line_h as int } else { s.faces.label.line_h as int };
    let n = if p.cut { p.n - 1 } else { p.n as int };
    let head = seq![
        Op::<Seq<char>>::Fill(r, Ink::White),
        Op::Pattern(r, Pattern::Hatch(6)),
        Op::Fill(p.plate, Ink::White),
        Op::Stroke(p.plate, 1, Ink::Black),
    ];
    let mid = centred_lines(face, p.cx as int, p.first as int, lh, lines, n);
    let cut = if p.cut {
        seq![crate::draw::centred(face, p.cx as int, Base::At(p.last), lines[p.n - 1] + "…"@, Some(cover_text_w(r)), false)]
    } else {
        Seq::empty()
    };
    let by = if p.with_author {
        seq![crate::draw::centred(Face::Label, p.cx as int, Base::At(p.author), author, Some(cover_text_w(r)), false)]
    } else {
        Seq::empty()
    };
    reveal(plate_ops);
    assert(plate_ops(s, r, face, lines, author) == head + mid + cut + by);
    if k < n <= lines.len() {
        law_lines_are_all_written(face, p.cx as int, p.first as int, lh, lines, n, k);
    }
}

/// Down goes to the next item and Up to the one before, round the ends; Right and Left turn the page, and stay on it
/// where there is only one.
pub proof fn law_lists_go_item_by_item(nav: ListNav)
    requires
        nav.wf(),
        nav.n > 0,
    ensures
        nav.focus + 1 < nav.n ==> nav.moved(Key::Down) == nav.focus + 1,
        nav.focus + 1 == nav.n ==> nav.moved(Key::Down) == 0,
        nav.focus > 0 ==> nav.moved(Key::Up) == nav.focus - 1,
        nav.focus == 0 ==> nav.moved(Key::Up) == nav.n - 1,
        nav.focus + nav.per_page < nav.n && nav.page_of() + 1 < nav.page_count() ==> nav.moved(Key::Right) == nav.focus + nav.per_page,
        nav.page_of() + 1 == nav.page_count() ==> nav.moved(Key::Right) == 0,
        nav.page_of() > 0 ==> nav.moved(Key::Left) == nav.focus - nav.per_page,
        nav.page_of() == 0 ==> nav.moved(Key::Left) == (nav.page_count() - 1) * nav.per_page,
        nav.moved(Key::Confirm) == nav.focus && nav.moved(Key::Back) == nav.focus,
{
    let (f, n) = (nav.focus as int, nav.n as int);
    if f + 1 < n {
        vstd::arithmetic::div_mod::lemma_small_mod((f + 1) as nat, n as nat);
    } else {
        vstd::arithmetic::div_mod::lemma_mod_self_0(n);
    }
}

/// As many pages as hold the items, and the focus is on one of them.
pub proof fn law_pages_hold_the_items(nav: ListNav)
    requires
        nav.wf(),
        nav.n > 0,
    ensures
        (nav.page_count() - 1) * nav.per_page < nav.n <= nav.page_count() * nav.per_page,
        nav.page_of() * nav.per_page <= nav.focus < (nav.page_of() + 1) * nav.per_page,
        0 <= nav.page_of() < nav.page_count(),
{
    let (f, n, p) = (nav.focus as int, nav.n as int, nav.per_page as int);
    assert(((n - 1) / p) * p < n <= ((n - 1) / p + 1) * p && (f / p) * p <= f < (f / p + 1) * p && f / p <= (n - 1) / p && 0 <= f / p)
        by (nonlinear_arith)
        requires
            0 <= f < n,
            0 < p,
    ;
}

/// A dialog lies between the margins, in the middle of the height above the rail; so does the card that says what is
/// being done.
pub proof fn law_cards_lie_in_the_middle(s: Sheet, n: int)
    requires
        s.wf(),
        0 <= n <= 0x100,
    ensures
        ({
            let card = dialog_card(s, n);
            let work = working_rect(s);
            &&& card.x == s.theme.margin && card.right_edge() == s.w - s.theme.margin
            &&& work.x == s.theme.margin && work.right_edge() == s.w - s.theme.margin
            &&& -1 <= 2 * card.y + card.h - (s.h - s.theme.rail_h) <= 1
            &&& -1 <= 2 * work.y + work.h - (s.h - s.theme.rail_h) <= 1
        }),
{
    assert(0 <= n * s.faces.body.line_h <= 0x10_0000) by (nonlinear_arith)
        requires
            0 <= n <= 0x100,
            0 <= s.faces.body.line_h <= 0x1000,
    ;
}

/// The steps of a bar lie side by side in what is filled and fill it to its end.
pub proof fn law_steps_fill_the_bar(x: int, y: int, h: int, filled: int, from: int, k: int)
    requires
        0 <= from,
        filled <= 0x1_0000,
        0 <= x <= 0x1_0000,
        0 <= k < bar_steps(x, y, h, filled, from).len(),
    ensures
        bar_steps(x, y, h, filled, from)[k] matches Op::Fill(r, ink) && ink == Ink::Black && x + from <= r.x && r.right_edge() <= x
            + filled && r.w <= 10 && r.x == x + from + 12 * k,
    decreases filled + 12 - from,
{
    if k > 0 {
        law_steps_fill_the_bar(x, y, h, filled, from + 12, k - 1);
        assert(bar_steps(x, y, h, filled, from)[k] == bar_steps(x, y, h, filled, from + 12)[k - 1]);
    }
}

/// A plate has at most four lines, each with room; the plate begins a pad inside its cover and is as high as what is on it.
pub proof fn law_plates_hold_four_lines(s: Sheet, r: Rect, face: Face, count: int, has_author: bool)
    requires
        s.wf(),
        0 <= count <= 0x1000,
        r.x == 0,
        r.y == 0,
        48 <= r.w <= 0x1000,
        r.h <= 0x1000,
    ensures
        ({
            let p = cover_plan(s, r, face, count, has_author);
            &&& p.n <= 4 && p.n <= count && (p.cut <==> p.n < count)
            &&& !has_author ==> !p.with_author
            &&& p.plate.x == cover_pad(r) && p.plate.w == r.w - 2 * cover_pad(r)
        }),
{
    reveal(cover_plan);
    reveal(cover_lines);
    reveal(cover_room);
    reveal(cover_top);
}

/// A picture of the size of a thumbnail is shown dot for dot, and one twice as large by every second dot.
pub proof fn law_thumbnails_show_the_picture(bm: Bitmap, x: int, y: int)
    requires
        bm.wf(),
        0 <= x < 48,
        0 <= y < 72,
    ensures
        bm.w == 48 && bm.h == 72 ==> thumb_dot(bm, 48 * y + x) == bm.dot(x, y),
        bm.w == 96 && bm.h == 144 ==> thumb_dot(bm, 48 * y + x) == bm.dot(2 * x, 2 * y),
{
    let k = 48 * y + x;
    assert(k % 48 == x && k / 48 == y);
    assert(x * 48 / 48 == x && y * 72 / 72 == y && x * 96 / 48 == 2 * x && y * 144 / 72 == 2 * y);
}

/// Tiles stand in rows, each as wide as the last, and rows under each other.
pub proof fn law_tiles_stand_in_rows(s: Sheet, x: int, y: int, cw: int, n: int, cols: int, tile: Tile)
    requires
        s.wf(),
        2 <= cols <= 8,
        0 <= x <= 0x1_0000,
        0 <= y <= 0x1_0000,
        0 <= cw <= 0x1_0000,
    ensures
        ({
            let at = |i: int| tile_ops(s, x, y, cw, i, n, cols, tile)[0];
            &&& at(0) is Text && at(1) is Text && at(cols) is Text
            &&& at(0)->Text_0.x == x && at(1)->Text_0.x == x + cw + 20 && at(cols)->Text_0.x == x
            &&& at(0)->Text_0.base == at(1)->Text_0.base
            &&& at(cols)->Text_0.base == crate::draw::at(y + tile_h(s) + 24 + s.faces.poster.ascent)
        }),
{
    reveal(tile_ops);
    assert(0int % cols == 0 && 0int / cols == 0 && 1int % cols == 1 && 1int / cols == 0 && cols % cols == 0 && cols / cols == 1)
        by (nonlinear_arith)
        requires
            2 <= cols <= 8,
    ;
}

/// The title of a setting ends before its value begins.
pub proof fn law_setting_titles_end_before_their_value(s: Sheet, tw: int, v: String, on: bool, pos: u16)
    requires
        s.wf(),
        0 <= tw <= 0x1_0000,
    ensures
        ({
            let right = s.w - s.theme.row_pad;
            let end = |value: SettingValue| s.theme.row_pad + (s.w - 2 * s.theme.row_pad - value.taken(tw));
            &&& end(SettingValue::Toggle(on)) <= right - 56 - 16
            &&& end(SettingValue::Slider(pos, v)) <= right - tw - 14 - 180 - 16
            &&& end(SettingValue::Nav) <= right - 24 - 16
            &&& end(SettingValue::Text(v)) <= right - tw - 16 && end(SettingValue::Stepper(v)) <= right - tw - 16 && end(
                SettingValue::Choice(v),
            ) <= right - tw - 16
        }),
{
}

/// A list that becomes shorter keeps its focus, or has it on its last item.
pub open spec fn resized(nav: ListNav, n: usize) -> ListNav {
    ListNav {
        n,
        focus: if n == 0 {
            0
        } else if nav.focus >= n {
            (n - 1) as usize
        } else {
            nav.focus
        },
        per_page: nav.per_page,
    }
}

/// The focus stays where it is while the item is there, and goes to the last one where it is not.
pub proof fn law_focus_stays_as_lists_change(nav: ListNav, n: usize)
    ensures
        nav.focus < n ==> resized(nav, n).focus == nav.focus,
        0 < n <= nav.focus ==> resized(nav, n).focus == n - 1,
        n == 0 ==> resized(nav, n).focus == 0,
        resized(nav, n).n == n,
{
}

/// The caret of a field stands right behind what is shown of its text, and at the start of an empty one.
pub proof fn law_caret_stands_behind_the_text(r: Rect, t: Seq<char>, widths: Seq<i32>, hint: Seq<char>)
    requires
        r.sane(),
        r.h >= 16,
        widths.len() == t.len(),
        forall|i: int| 0 <= i < widths.len() ==> 0 <= #[trigger] widths[i] <= 0x10_0000,
    ensures
        ({
            let caret = text_field_ops(r, t, widths, hint, true)[2];
            &&& caret is Fill
            &&& t.len() == 0 ==> caret->Fill_0.x == r.x + 8
            &&& t.len() > 0 && widths[0] <= r.w - 24 ==> caret->Fill_0.x == r.x + 8 + widths[0] + 2
            &&& caret->Fill_0.y == r.y + 8 && caret->Fill_0.h == r.h - 16
        }),
{
    reveal_with_fuel(tail_at, 2);
}

} // verus!
