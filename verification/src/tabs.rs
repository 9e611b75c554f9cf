//! The tab line: a strip of names that scrolls to the active one.
use vstd::prelude::*;

use crate::draw::{Base, Face, Frame, Ink, Op, Rect, Sheet};
use crate::draw::{INSET, RULE};
use crate::widgets::{seen, Measured};

verus! {

/// Height of a tab.
pub const TAB_H: i32 = 32;

/// Space between two tabs.
pub const TAB_GAP: i32 = 16;

/// How many tabs a line has at most.
pub const MANY_TABS: usize = 0x100_0000;

/// How wide the names are together at most: coordinates up to here can be added without leaving the
/// range of an `i32`.
pub const LONG_STRIP: i32 = 0x1000_0000;

/// Whether the names can be laid out in one strip.
pub open spec fn is_strip(names: Seq<Measured>) -> bool {
    &&& names.len() <= MANY_TABS
    &&& forall|i: int| 0 <= i < names.len() ==> (#[trigger] names[i]).wf()
    &&& width_to(names, names.len() as int) <= LONG_STRIP
}

/// The width of the first `k` names together.
pub open spec fn width_to(names: Seq<Measured>, k: int) -> int
    decreases k,
{
    if k <= 0 {
        0
    } else {
        width_to(names, k - 1) + names[k - 1].width
    }
}

/// Where the names must end: before the text at the right, if there is one, and before the chevron,
/// if they do not all fit.
pub open spec fn tab_limit(s: Sheet, names: Seq<Measured>, right: Option<(Seq<char>, int)>) -> int {
    let n = names.len() as int;
    let limit = match right {
        Some(r) => s.w - INSET - (r.1 + 16),
        None => s.w - INSET,
    };
    if width_to(names, n) + TAB_GAP * (n - 1) + 12 > limit - INSET {
        limit - 24
    } else {
        limit
    }
}

/// How far the strip is scrolled, so that the active tab is fully visible.
pub open spec fn tab_offset(limit: int, names: Seq<Measured>, active: int) -> int {
    let avail = limit - INSET - 12;
    let upto = if active + 1 < names.len() { active + 1 } else { names.len() as int };
    let end = width_to(names, upto) + TAB_GAP * active;
    if end > avail {
        end - avail + 20
    } else {
        0
    }
}

/// Where tab `i` stands. The first cell's left edge sits on the inset where the strip is not
/// scrolled: cells are 6 px wider than their text on each side.
pub open spec fn tab_x(names: Seq<Measured>, offset: int, i: int) -> int {
    INSET + 6 - offset + width_to(names, i) + TAB_GAP * i
}

/// Whether a tab is wholly in sight.
pub open spec fn tab_shown(x: int, width: int, limit: int) -> bool {
    INSET - 6 <= x && x + width <= limit
}

/// What tab `i` draws.
pub open spec fn tab_ops(y: int, x: int, name: Measured, active: bool, focused: bool, limit: int) -> Seq<Op<Seq<char>>> {
    let cell = crate::draw::rect(x - 6, y, name.width + 12, TAB_H as int);
    if !tab_shown(x, name.width as int, limit) {
        Seq::empty()
    } else {
        (if active { seq![Op::Fill(cell, Ink::Black)] } else { Seq::empty() }) + (if active && focused {
            seq![Op::Stroke(cell, 3, Ink::Black)]
        } else {
            Seq::empty()
        }) + seq![tab_text(y, x, name.text@, active)]
    }
}

/// The name on a tab.
pub open spec fn tab_text(y: int, x: int, name: Seq<char>, inverted: bool) -> Op<Seq<char>> {
    match crate::draw::plain(Face::Label, x, crate::draw::mid(y, TAB_H as int), name, None, inverted) {
        Op::Text(t) => Op::Text(crate::draw::TextOp { caps: true, ..t }),
        o => o,
    }
}

/// What the first `k` tabs draw.
pub open spec fn tabs_to(
    y: int,
    names: Seq<Measured>,
    offset: int,
    active: int,
    focused: bool,
    limit: int,
    k: int,
) -> Seq<Op<Seq<char>>>
    decreases k,
{
    if k <= 0 {
        Seq::empty()
    } else {
        tabs_to(y, names, offset, active, focused, limit, k - 1) + tab_ops(
            y,
            tab_x(names, offset, k - 1),
            names[k - 1],
            k - 1 == active,
            focused,
            limit,
        )
    }
}

/// Whether one of the first `k` tabs is hidden at the right.
pub open spec fn hidden_right(names: Seq<Measured>, offset: int, limit: int, k: int) -> bool {
    exists|i: int| 0 <= i < k && #[trigger] tab_x(names, offset, i) + names[i].width > limit
}

/// What a tab line draws.
pub open spec fn tabs_ops(
    s: Sheet,
    y: int,
    names: Seq<Measured>,
    active: int,
    focused: bool,
    right: Option<(Seq<char>, int)>,
) -> Seq<Op<Seq<char>>> {
    let limit = tab_limit(s, names, right);
    let offset = tab_offset(limit, names, active);
    let n = names.len() as int;
    let band = crate::draw::mid(y, TAB_H as int);
    (match right {
        Some(r) => seq![crate::draw::ended(Face::Mono, s.w - INSET, band, r.0)],
        None => Seq::empty(),
    }) + tabs_to(y, names, offset, active, focused, limit, n) + (if offset > 0 {
        seq![crate::draw::plain(Face::Mono, INSET - 22, band, "‹"@, None, false)]
    } else {
        Seq::empty()
    }) + (if hidden_right(names, offset, limit, n) {
        seq![crate::draw::ended(Face::Mono, s.w - INSET, band, "›"@)]
    } else {
        Seq::empty()
    }) + seq![crate::draw::fill(INSET as int, y + TAB_H, s.w - 2 * INSET, RULE as int, Ink::Black)]
}

proof fn lemma_width_grows(names: Seq<Measured>, k: int, n: int)
    requires
        0 <= k <= n <= names.len(),
        forall|i: int| 0 <= i < names.len() ==> (#[trigger] names[i]).wf(),
    ensures
        0 <= width_to(names, k) <= width_to(names, n),
    decreases n,
{
    if k < n {
        lemma_width_grows(names, k, n - 1);
        assert(names[n - 1].wf());
    } else if k > 0 {
        lemma_width_grows(names, k - 1, n - 1);
        assert(names[n - 1].wf());
    }
}

fn tab(f: &mut Frame, y: i32, x: i32, name: &Measured, active: bool, focused: bool, limit: i32)
    requires
        name.wf(),
        -0x3000_0000 <= x <= 0x3000_0000,
    ensures
        final(f).sheet == old(f).sheet,
        final(f)@ == old(f)@ + tab_ops(y as int, x as int, *name, active, focused, limit as int),
{
    if x >= INSET - 6 && x + name.width <= limit {
        let cell = Rect::new(x - 6, y, (name.width + 12) as u32, TAB_H as u32);
        if active {
            f.fill_rect(cell, Ink::Black);
            if focused {
                f.stroke_rect(cell, 3, Ink::Black);
            }
        }
        f.draw(
            Op::Text(
                crate::draw::TextOp {
                    face: Face::Label,
                    x,
                    place: crate::draw::Place::Start,
                    base: Base::Mid(y, TAB_H),
                    text: name.text.clone(),
                    fit: None,
                    inverted: active,
                    caps: true,
                },
            ),
        );
    }
    assert(f@ =~= old(f)@ + tab_ops(y as int, x as int, *name, active, focused, limit as int));
}

/// The widths of the first `k` names together.
fn total_width(names: &Vec<Measured>, k: usize) -> (r: i32)
    requires
        k <= names@.len(),
        is_strip(names@),
    ensures
        r == width_to(names@, k as int),
        0 <= r <= LONG_STRIP,
{
    let mut sum: i32 = 0;
    let mut i: usize = 0;
    while i < k
        invariant
            i <= k <= names@.len(),
            is_strip(names@),
            sum == width_to(names@, i as int),
            0 <= sum <= LONG_STRIP,
        decreases k - i,
    {
        assert(names@[i as int].wf());
        proof {
            lemma_width_grows(names@, i + 1, names@.len() as int);
        }
        sum = sum + names[i].width;
        i += 1;
    }
    sum
}

/// Where the names must end, and how far they are scrolled.
fn tab_layout(w: i32, names: &Vec<Measured>, active: usize, right: Option<&Measured>, Ghost(s): Ghost<Sheet>) -> (r: (i32, i32))
    requires
        s.wf(),
        w == s.w,
        is_strip(names@),
        active <= MANY_TABS,
        right matches Some(m) ==> m.wf(),
    ensures
        r.0 == tab_limit(s, names@, seen(right)),
        r.1 == tab_offset(r.0 as int, names@, active as int),
        0 <= r.1 <= 0x2800_0000,
{
    let n: usize = names.len();
    let mut limit: i32 = w - INSET;
    if let Some(r) = right {
        limit = limit - (r.width + 16);
    }
    if total_width(names, n) + TAB_GAP * (n as i32 - 1) + 12 > limit - INSET {
        limit = limit - 24;
    }
    let avail: i32 = limit - INSET - 12;
    let upto: usize = if active + 1 < n { active + 1 } else { n };
    let active_end: i32 = total_width(names, upto) + TAB_GAP * active as i32;
    (limit, if active_end > avail { active_end - avail + 20 } else { 0 })
}

/// Draws the tabs in sight; true when one is hidden at the right.
fn strip(f: &mut Frame, y: i32, names: &Vec<Measured>, offset: i32, active: usize, focused: bool, limit: i32) -> (hidden: bool)
    requires
        is_strip(names@),
        0 <= offset <= 0x2800_0000,
    ensures
        hidden == hidden_right(names@, offset as int, limit as int, names@.len() as int),
        final(f).sheet == old(f).sheet,
        final(f)@ == old(f)@ + tabs_to(
            y as int,
            names@,
            offset as int,
            active as int,
            focused,
            limit as int,
            names@.len() as int,
        ),
{
    let n: usize = names.len();
    let mut x: i32 = INSET + 6 - offset;
    let mut hidden = false;
    let mut i: usize = 0;
    assert(f@ =~= old(f)@ + tabs_to(y as int, names@, offset as int, active as int, focused, limit as int, 0));
    while i < n
        invariant
            i <= n == names@.len(),
            is_strip(names@),
            f.sheet == old(f).sheet,
            0 <= offset <= 0x2800_0000,
            x == tab_x(names@, offset as int, i as int),
            hidden == hidden_right(names@, offset as int, limit as int, i as int),
            f@ == old(f)@ + tabs_to(y as int, names@, offset as int, active as int, focused, limit as int, i as int),
        decreases n - i,
    {
        proof {
            lemma_width_grows(names@, i as int, names@.len() as int);
            lemma_width_grows(names@, i + 1, names@.len() as int);
            assert(names@[i as int].wf());
        }
        tab(f, y, x, &names[i], i == active, focused, limit);
        assert(f@ =~= old(f)@ + tabs_to(y as int, names@, offset as int, active as int, focused, limit as int, i + 1));
        if x + names[i].width > limit {
            hidden = true;
        }
        proof {
            let (o, l) = (offset as int, limit as int);
            assert(tab_x(names@, o, i as int) == x);
            if hidden_right(names@, o, l, i as int) {
                let k = choose|k: int| 0 <= k < i && #[trigger] tab_x(names@, o, k) + names@[k].width > l;
                assert(tab_x(names@, o, k) + names@[k].width > l);
            }
        }
        x = x + names[i].width + TAB_GAP;
        i += 1;
    }
    hidden
}

/// A tab line: names with the active one inverted, page number at the right, 2 px rule beneath. When
/// the names do not fit, the strip scrolls so the active tab is visible and a chevron marks the
/// hidden side. The names come with their widths in small capitals. Returns where the line ends.
pub fn tabs(f: &mut Frame, y: i32, names: &Vec<Measured>, active: usize, focused: bool, right: Option<&Measured>) -> (end: i32)
    requires
        old(f).sheet.wf(),
        crate::draw::sane(y as int),
        is_strip(names@),
        active <= MANY_TABS,
        right matches Some(m) ==> m.wf(),
    ensures
        end == y + TAB_H + RULE,
        final(f).sheet == old(f).sheet,
        final(f)@ == old(f)@ + tabs_ops(old(f).sheet, y as int, names@, active as int, focused, seen(right)),
{
    let w: i32 = f.width() as i32;
    if let Some(r) = right {
        f.text_ended(Face::Mono, w - INSET, Base::Mid(y, TAB_H), &r.text);
    }
    let (limit, offset) = tab_layout(w, names, active, right, Ghost(f.sheet));
    let hidden = strip(f, y, names, offset, active, focused, limit);
    if offset > 0 {
        f.text(Face::Mono, INSET - 22, Base::Mid(y, TAB_H), "‹", None, false);
    }
    if hidden {
        f.text_ended(Face::Mono, w - INSET, Base::Mid(y, TAB_H), "›");
    }
    f.fill_rect(Rect::new(INSET, y + TAB_H, (w - 2 * INSET) as u32, RULE), Ink::Black);
    assert(f@ =~= old(f)@ + tabs_ops(old(f).sheet, y as int, names@, active as int, focused, seen(right)));
    y + TAB_H + RULE as i32
}

proof fn lemma_width_adds(names: Seq<Measured>, k: int)
    requires
        0 <= k < names.len(),
    ensures
        width_to(names, k + 1) == width_to(names, k) + names[k].width,
{
}

/// The active tab is always in sight: wherever the line has room for it beside the chevrons, the
/// strip is scrolled so that its whole name shows.
pub proof fn law_active_tab_is_in_sight(names: Seq<Measured>, limit: int, active: int)
    requires
        0 <= active < names.len(),
        forall|i: int| 0 <= i < names.len() ==> (#[trigger] names[i]).wf(),
        names[active].width + 44 <= limit - INSET,
    ensures
        tab_shown(
            tab_x(names, tab_offset(limit, names, active), active),
            names[active].width as int,
            limit,
        ),
{
    lemma_width_adds(names, active);
    lemma_width_grows(names, active, active);
}

/// Every tab that fits between the edges is written, and the active one in white on black.
pub proof fn law_tabs_in_sight_are_written(
    y: int,
    names: Seq<Measured>,
    offset: int,
    active: int,
    focused: bool,
    limit: int,
    k: int,
    i: int,
)
    requires
        0 <= i < k <= names.len(),
        tab_shown(tab_x(names, offset, i), names[i].width as int, limit),
    ensures
        crate::draw::shows(tabs_to(y, names, offset, active, focused, limit, k), names[i].text@),
        crate::draw::written(
            tab_ops(y, tab_x(names, offset, i), names[i], i == active, focused, limit),
            i == active,
        ),
    decreases k,
{
    broadcast use {
        crate::draw::lemma_shows_in_two,
        crate::draw::lemma_shows_pushed,
        crate::draw::lemma_shows_between_two,
        crate::draw::lemma_shows_between_pushed,
        crate::draw::lemma_written_in_two,
        crate::draw::lemma_written_pushed,
        crate::draw::lemma_draws_in_two,
        crate::draw::lemma_draws_pushed,
    };
    if i < k - 1 {
        law_tabs_in_sight_are_written(y, names, offset, active, focused, limit, k - 1, i);
    }
}

/// Tabs stand side by side in their order, a gap apart.
pub proof fn law_tabs_stand_side_by_side(names: Seq<Measured>, offset: int, i: int)
    requires
        0 <= i,
        i + 1 < names.len(),
    ensures
        tab_x(names, offset, i + 1) == tab_x(names, offset, i) + names[i].width + 16,
{
    assert(16 * (i + 1) == 16 * i + 16);
}

/// Arrows say that there are tabs out of sight: one at the left where the strip was moved, one at the right where a tab
/// does not fit.
pub proof fn law_arrows_say_there_is_more(
    s: Sheet,
    y: int,
    names: Seq<Measured>,
    active: int,
    focused: bool,
    right: Option<(Seq<char>, int)>,
    i: int,
)
    requires
        0 <= i < names.len(),
    ensures
        ({
            let ops = tabs_ops(s, y, names, active, focused, right);
            let limit = tab_limit(s, names, right);
            let offset = tab_offset(limit, names, active);
            &&& offset > 0 ==> crate::draw::shows(ops, "‹"@)
            &&& tab_x(names, offset, i) + names[i].width > limit ==> crate::draw::shows(ops, "›"@)
            &&& right matches Some(r) ==> crate::draw::shows(ops, r.0)
        }),
{
    broadcast use {
        crate::draw::lemma_shows_in_two,
        crate::draw::lemma_shows_pushed,
        crate::draw::lemma_shows_between_two,
        crate::draw::lemma_shows_between_pushed,
        crate::draw::lemma_written_in_two,
        crate::draw::lemma_written_pushed,
        crate::draw::lemma_draws_in_two,
        crate::draw::lemma_draws_pushed,
    };
}

} // verus!
