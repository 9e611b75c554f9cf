//! What Jump and the empty home page draw.
use vstd::prelude::*;

use crate::draw::{Base, Face, Frame, Ink, Op, Rect, Sheet, INSET, RULE};
use crate::firstrun_draw::{StartHere, FEW_LINES};
use crate::input::Refresh;
use crate::jump::{Jump, JumpRow};
use crate::order;
use crate::platform::WifiState;
use crate::text;
use crate::widgets;
use crate::widgets::{ListNav, Measured, RowState};

verus! {

/// Height of the search line.
pub const SEARCH_H: i32 = 64;

/// Height of a group's label.
pub const GROUP_H: i32 = 32;

/// How many rows Jump holds at most.
pub const MAX_ROWS: usize = 0x1_0000;

/// What the search line draws: the query with the caret behind it, and the hint on the right.
pub open spec fn search_ops(s: Sheet, query: Seq<char>, query_w: int, hint_w: int) -> Seq<Op<Seq<char>>> {
    let pad = s.theme.row_pad as int;
    let caret = if query.len() == 0 {
        pad
    } else {
        pad + query_w + 2
    };
    seq![
        crate::draw::fill(0, SEARCH_H - RULE, s.w as int, RULE as int, Ink::Black),
        crate::draw::plain(Face::ListTitle, pad, crate::draw::mid(0, SEARCH_H as int), query, None, false),
        crate::draw::fill(caret, 18, 2, 30, Ink::Black),
        crate::draw::plain(
            Face::Label,
            s.w - pad - hint_w,
            crate::draw::mid(0, SEARCH_H as int),
            "Type on your phone"@,
            None,
            false,
        ),
    ]
}

/// The label over a group.
pub open spec fn group_label(group: u8) -> Seq<char> {
    if group == 0 {
        "Recent"@
    } else if group == 1 {
        "Everything"@
    } else {
        "Apps and games"@
    }
}

/// The rows shown of a page, from row `vi` of the hits at `y` down: each group under its label while
/// nothing is searched for, up to the first row that would run into the rail.
pub open spec fn list_ops(
    s: Sheet,
    row_h: int,
    rows: Seq<JumpRow>,
    widths: Seq<i32>,
    hits: Seq<int>,
    grouped: bool,
    focus: int,
    vi: int,
    end: int,
    y: int,
    last: Option<u8>,
) -> Seq<Op<Seq<char>>>
    decreases end - vi,
{
    if vi >= end {
        Seq::empty()
    } else {
        let r = rows[hits[vi]];
        let labelled = grouped && last != Some(r.group);
        let top = if labelled {
            y + GROUP_H
        } else {
            y
        };
        if top + row_h > s.h - s.theme.rail_h {
            Seq::empty()
        } else {
            (if labelled {
                seq![crate::draw::caps(s.theme.row_pad as int, y + 22, group_label(r.group), None, false)]
            } else {
                Seq::empty()
            }) + widgets::row_ops(
                s,
                top,
                row_h,
                r.title@,
                None,
                Some((r.value@, widths[hits[vi]] as int)),
                crate::firstrun_draw::row_state(focus == vi),
            ) + list_ops(
                s,
                row_h,
                rows,
                widths,
                hits,
                grouped,
                focus,
                vi + 1,
                end,
                top + row_h,
                if labelled {
                    Some(r.group)
                } else {
                    last
                },
            )
        }
    }
}

/// The list's position once `hits` rows are known and `per` of them go on a page.
pub open spec fn fitted(nav: ListNav, hits: int, per: int) -> ListNav {
    ListNav {
        focus: if hits == 0 {
            0
        } else if nav.focus >= hits {
            (hits - 1) as usize
        } else {
            nav.focus
        },
        n: hits as usize,
        per_page: per as usize,
    }
}

/// How many rows go on a page of Jump; one at least.
pub open spec fn rows_on_page(s: Sheet, row_h: int) -> int {
    let q = widgets::quotient(s.h - s.theme.rail_h - SEARCH_H, row_h);
    if q > 1 {
        q
    } else {
        1
    }
}

/// What Jump draws over a list of hits.
pub open spec fn jump_ops(
    s: Sheet,
    nav: ListNav,
    query: Seq<char>,
    rows: Seq<JumpRow>,
    hits: Seq<int>,
    row_h: int,
    widths: Seq<i32>,
    query_w: int,
    hint_w: int,
) -> Seq<Op<Seq<char>>> {
    let start = nav.page_of() * nav.per_page;
    let end = if start + nav.per_page < nav.n {
        start + nav.per_page
    } else {
        nav.n as int
    };
    search_ops(s, query, query_w, hint_w) + list_ops(
        s,
        row_h,
        rows,
        widths,
        hits,
        query.len() == 0,
        nav.focus as int,
        start,
        end,
        SEARCH_H as int,
        None,
    ) + widgets::rail_ops(
        s,
        seq![
            ""@,
            "Close"@,
            "Open"@,
            text::decimal((nav.page_of() + 1) as nat) + " / "@ + text::decimal(nav.page_count() as nat),
        ],
        None,
    )
}

fn search_line(f: &mut Frame, query: &str, query_w: i32, hint_w: i32)
    requires
        old(f).sheet.wf(),
        0 <= query_w <= 0x10_0000,
        0 <= hint_w <= 0x10_0000,
    ensures
        final(f).sheet == old(f).sheet,
        final(f)@ == old(f)@ + search_ops(old(f).sheet, query@, query_w as int, hint_w as int),
{
    let w: i32 = f.width() as i32;
    let pad: i32 = f.sheet.theme.row_pad;
    f.fill_rect(Rect::new(0, SEARCH_H - RULE as i32, w as u32, RULE), Ink::Black);
    f.text(Face::ListTitle, pad, Base::Mid(0, SEARCH_H), query, None, false);
    let caret: i32 = if query.is_empty() { pad } else { pad + query_w + 2 };
    f.fill_rect(Rect::new(caret, 18, 2, 30), Ink::Black);
    f.text(Face::Label, w - pad - hint_w, Base::Mid(0, SEARCH_H), "Type on your phone", None, false);
    assert(f@ =~= old(f)@ + search_ops(old(f).sheet, query@, query_w as int, hint_w as int));
}

fn label_of(group: u8) -> (r: &'static str)
    ensures
        r@ == group_label(group),
{
    match group {
        0 => "Recent",
        1 => "Everything",
        _ => "Apps and games",
    }
}

fn list(
    f: &mut Frame,
    row_h: i32,
    rows: &Vec<JumpRow>,
    widths: &Vec<i32>,
    hits: &Vec<usize>,
    grouped: bool,
    focus: usize,
    start: usize,
    end: usize,
)
    requires
        old(f).sheet.wf(),
        0 < row_h <= 0x1000,
        widths@.len() == rows@.len(),
        forall|k: int| 0 <= k < widths@.len() ==> 0 <= #[trigger] widths@[k] <= 0x10_0000,
        forall|k: int| 0 <= k < hits@.len() ==> #[trigger] hits@[k] < rows@.len(),
        end <= hits@.len(),
    ensures
        final(f).sheet == old(f).sheet,
        final(f)@ == old(f)@ + list_ops(
            old(f).sheet,
            row_h as int,
            rows@,
            widths@,
            order::positions(hits@),
            grouped,
            focus as int,
            start as int,
            end as int,
            SEARCH_H as int,
            None,
        ),
{
    let ghost s = f.sheet;
    let ghost hs = order::positions(hits@);
    let ghost all = list_ops(
        s,
        row_h as int,
        rows@,
        widths@,
        hs,
        grouped,
        focus as int,
        start as int,
        end as int,
        SEARCH_H as int,
        None,
    );
    let bottom: i32 = f.height() as i32 - f.sheet.theme.rail_h;
    let pad: i32 = f.sheet.theme.row_pad;
    let mut vi: usize = start;
    let mut y: i32 = SEARCH_H;
    let mut last: Option<u8> = None;
    while vi < end
        invariant_except_break
            f@ + list_ops(
                s,
                row_h as int,
                rows@,
                widths@,
                hs,
                grouped,
                focus as int,
                vi as int,
                end as int,
                y as int,
                last,
            ) == old(f)@ + all,
        invariant
            s == old(f).sheet,
            s.wf(),
            f.sheet == s,
            hs == order::positions(hits@),
            0 < row_h <= 0x1000,
            bottom == s.h - s.theme.rail_h,
            pad == s.theme.row_pad,
            SEARCH_H <= y <= bottom || y == SEARCH_H,
            widths@.len() == rows@.len(),
            forall|k: int| 0 <= k < widths@.len() ==> 0 <= #[trigger] widths@[k] <= 0x10_0000,
            forall|k: int| 0 <= k < hits@.len() ==> #[trigger] hits@[k] < rows@.len(),
            end <= hits@.len(),
        ensures
            f@ == old(f)@ + all,
        decreases end - vi,
    {
        let ghost before = f@;
        let ghost (y0, last0) = (y, last);
        let r = &rows[hits[vi]];
        assert(hs[vi as int] == hits@[vi as int]);
        let labelled = grouped && last != Some(r.group);
        let top: i32 = if labelled { y + GROUP_H } else { y };
        if top + row_h > bottom {
            assert(f@ =~= f@ + Seq::<Op<Seq<char>>>::empty());
            break;
        }
        if labelled {
            f.label(pad, y + 22, label_of(r.group), None, false);
            last = Some(r.group);
        }
        let v = Measured { text: r.value.clone(), width: widths[hits[vi]] };
        let state = if focus == vi { RowState::Focused } else { RowState::Normal };
        widgets::row(f, top, row_h, &r.title, None, Some(&v), state);
        y = top + row_h;
        vi += 1;
        proof {
            let rest = list_ops(
                s,
                row_h as int,
                rows@,
                widths@,
                hs,
                grouped,
                focus as int,
                vi as int,
                end as int,
                y as int,
                last,
            );
            assert(f@ + rest =~= before + list_ops(
                s,
                row_h as int,
                rows@,
                widths@,
                hs,
                grouped,
                focus as int,
                vi - 1,
                end as int,
                y0 as int,
                last0,
            ));
        }
        if vi >= end {
            assert(f@ =~= f@ + Seq::<Op<Seq<char>>>::empty());
            break;
        }
    }
    if start >= end {
        assert(f@ =~= old(f)@ + all);
    }
}

impl Jump {
    /// Draw. `widths` holds the width of each row's value in mono, `query_w` that of the query among list
    /// titles and `hint_w` that of the hint among labels.
    pub fn draw(&mut self, f: &mut Frame, row_h: i32, widths: &Vec<i32>, query_w: i32, hint_w: i32) -> (r: Refresh)
        requires
            old(f).sheet.wf(),
            0 < row_h <= 0x1000,
            old(self).rows@.len() <= MAX_ROWS,
            widths@.len() == old(self).rows@.len(),
            forall|k: int| 0 <= k < widths@.len() ==> 0 <= #[trigger] widths@[k] <= 0x10_0000,
            0 <= query_w <= 0x10_0000,
            0 <= hint_w <= 0x10_0000,
        ensures
            r == Refresh::Du,
            final(self).query == old(self).query,
            final(self).rows == old(self).rows,
            final(self).nav.wf(),
            final(f).sheet == old(f).sheet,
            exists|hits: Seq<int>|
                {
                    &&& #[trigger] crate::jump::is_hit_list(
                        crate::jump::row_views(old(self).rows@),
                        old(self).query@,
                        hits,
                    )
                    &&& final(self).nav == fitted(
                        old(self).nav,
                        hits.len() as int,
                        rows_on_page(old(f).sheet, row_h as int),
                    )
                    &&& final(f)@ == old(f)@ + jump_ops(
                        old(f).sheet,
                        final(self).nav,
                        old(self).query@,
                        old(self).rows@,
                        hits,
                        row_h as int,
                        widths@,
                        query_w as int,
                        hint_w as int,
                    )
                },
    {
        let ghost s = f.sheet;
        search_line(f, &self.query, query_w, hint_w);
        let hits = self.filtered();
        let ghost hs = order::positions(hits@);
        proof {
            let q = text::lower(self.query@);
            let rv = crate::jump::row_views(self.rows@);
            order::lemma_order_len(
                rv.map_values(|r: crate::jump::RowView| crate::jump::hit_key(r.title, q)),
                rv.map_values(|r: crate::jump::RowView| crate::jump::is_hit(r.title, q)),
                hs,
            );
            let a = s.h - s.theme.rail_h - SEARCH_H;
            if a >= 0 {
                assert(0 <= a / row_h as int <= a) by (nonlinear_arith)
                    requires
                        a >= 0,
                        row_h > 0,
                ;
            } else {
                assert(0 <= (-a) / row_h as int) by (nonlinear_arith)
                    requires
                        a < 0,
                        row_h > 0,
                ;
            }
        }
        self.nav.per_page = widgets::rows_between(SEARCH_H, f.height() as i32 - f.sheet.theme.rail_h, row_h);
        self.nav.set_n(hits.len());
        proof {
            let (i, per) = (self.nav.focus as int, self.nav.per_page as int);
            assert((i / per) * per <= i) by (nonlinear_arith)
                requires
                    i >= 0,
                    per > 0,
            ;
        }
        let page = self.nav.visible();
        let (start, end): (usize, usize) = (page.start, page.end);
        list(f, row_h, &self.rows, widths, &hits, self.query.as_str().is_empty(), self.nav.focus, start, end);
        proof {
            let (i, n, per) = (self.nav.focus as int, self.nav.n as int, self.nav.per_page as int);
            assert(i / per <= i && n / per <= n) by (nonlinear_arith)
                requires
                    i >= 0,
                    n >= 0,
                    per > 0,
            ;
        }
        let p = text::number((self.nav.page() + 1) as u64);
        let pages = text::join3(&p, " / ", &text::number(self.nav.pages() as u64));
        widgets::rail(f, ["", "Close", "Open", &pages], None);
        proof {
            assert(crate::jump::is_hit_list(crate::jump::row_views(old(self).rows@), old(self).query@, hs));
            let whole = jump_ops(
                s,
                self.nav,
                self.query@,
                self.rows@,
                hs,
                row_h as int,
                widths@,
                query_w as int,
                hint_w as int,
            );
            assert(f@ =~= old(f)@ + whole);
        }
        Refresh::Du
    }
}

/// Jump never draws a row into the rail: wherever the list starts, each row ends above it.
pub proof fn law_rows_keep_off_the_rail(
    s: Sheet,
    row_h: int,
    rows: Seq<JumpRow>,
    widths: Seq<i32>,
    hits: Seq<int>,
    grouped: bool,
    focus: int,
    vi: int,
    end: int,
    y: int,
    last: Option<u8>,
    k: int,
)
    requires
        s.wf(),
        0 < row_h <= 0x1000,
        0 <= y <= 0x10_0000,
        0 <= k < list_ops(s, row_h, rows, widths, hits, grouped, focus, vi, end, y, last).len(),
    ensures
        list_ops(s, row_h, rows, widths, hits, grouped, focus, vi, end, y, last)[k] matches Op::Fill(r, _) ==> y
            <= r.y && r.bottom_edge() <= s.h - s.theme.rail_h,
    decreases end - vi,
{
    if vi < end {
        let r = rows[hits[vi]];
        let labelled = grouped && last != Some(r.group);
        let top = if labelled {
            y + GROUP_H
        } else {
            y
        };
        if top + row_h <= s.h - s.theme.rail_h {
            let n = if labelled {
                1int
            } else {
                0int
            };
            let row = widgets::row_ops(
                s,
                top,
                row_h,
                r.title@,
                None,
                Some((r.value@, widths[hits[vi]] as int)),
                crate::firstrun_draw::row_state(focus == vi),
            );
            if k >= n + row.len() {
                law_rows_keep_off_the_rail(
                    s,
                    row_h,
                    rows,
                    widths,
                    hits,
                    grouped,
                    focus,
                    vi + 1,
                    end,
                    top + row_h,
                    if labelled {
                        Some(r.group)
                    } else {
                        last
                    },
                    k - n - row.len(),
                );
            }
        }
    }
}

/// The empty home page's paragraph.
pub const EMPTY_TEXT: &'static str = "Three good places to start, free from the Bookshop.";

/// The empty home page's hint while the reader serves no Drop page.
pub const NO_ADDRESS_TEXT: &'static str = "Open Drop and the reader puts its own address here to scan.";

/// What the empty home page shows that the platform makes: wrapped and measured texts.
pub struct EmptyHome {
    /// [`EMPTY_TEXT`], wrapped between the insets in body text.
    pub lines: Vec<String>,
    /// The free books; the first three are shown.
    pub start_here: Vec<StartHere>,
    /// Wi-Fi: the Drop page's address is there only while the reader is serving it.
    pub wifi: WifiState,
    /// The Drop page's address without its scheme.
    pub address: String,
    /// The size of the address as a code at four dots a module, if it could be made one.
    pub code: Option<i32>,
    /// [`NO_ADDRESS_TEXT`], shown while there is no address, wrapped between the insets in the label face.
    pub hint: Vec<String>,
    /// Width of "Drop" in the mono face.
    pub drop_w: i32,
    /// Width of "Stats" in the mono face.
    pub stats_w: i32,
}

impl EmptyHome {
    /// Whether everything is of a size that fits on a panel.
    pub open spec fn wf(self, s: Sheet) -> bool {
        &&& self.lines@.len() <= FEW_LINES
        &&& self.hint@.len() <= FEW_LINES
        &&& forall|i: int| 0 <= i < self.start_here@.len() ==> (#[trigger] self.start_here@[i]).hours.wf()
        &&& self.code matches Some(q) ==> 0 <= q <= 0x1_0000
        &&& 0 <= self.drop_w <= 0x10_0000
        &&& 0 <= self.stats_w <= 0x10_0000
        &&& widgets::side_fits(s, widgets::side_centre(), self.drop_w as int)
        &&& widgets::side_fits(s, widgets::side_centre(), self.stats_w as int)
    }

    /// Whether the reader is serving its page: Drop turns the radio on, and until then there is no page for
    /// a code to point at.
    pub open spec fn serves(self) -> bool {
        self.wifi is Connected || self.wifi is Hotspot
    }

    /// How many free books are shown.
    pub open spec fn shown(self) -> int {
        if self.start_here@.len() < 3 {
            self.start_here@.len() as int
        } else {
            3
        }
    }
}

/// The height of a free book's place on the empty home page.
pub open spec fn pick_h(s: Sheet) -> int {
    12 + s.faces.body.line_h + s.faces.label.line_h + 12
}

/// What one free book draws: a hairline, title and author on the margin, the hours against the rule's end.
pub open spec fn pick_ops(s: Sheet, y: int, b: StartHere) -> Seq<Op<Seq<char>>> {
    let (body, l) = (s.faces.body, s.faces.label);
    let cw = s.w - 2 * INSET;
    let room = Some(cw - b.hours.width - 24);
    seq![
        crate::draw::fill(INSET as int, y, cw, 1, Ink::Black),
        crate::draw::plain(Face::Body, INSET as int, crate::draw::at(y + 12 + body.ascent), b.title@, room, false),
        crate::draw::plain(
            Face::Mono,
            s.w - INSET - b.hours.width,
            crate::draw::at(y + 12 + body.ascent),
            b.hours.text@,
            None,
            false,
        ),
        crate::draw::plain(
            Face::Label,
            INSET as int,
            crate::draw::at(y + 12 + body.line_h + l.ascent),
            b.author@,
            room,
            false,
        ),
    ]
}

/// What the first `n` free books draw.
pub open spec fn picks_ops(s: Sheet, y: int, books: Seq<StartHere>, n: int) -> Seq<Op<Seq<char>>>
    decreases n,
{
    if n <= 0 {
        Seq::empty()
    } else {
        picks_ops(s, y, books, n - 1) + pick_ops(s, y + (n - 1) * pick_h(s), books[n - 1])
    }
}

/// What the foot of the empty home page draws, from `y` down: the address and its code while it is served,
/// else the hint.
pub open spec fn home_foot_ops(s: Sheet, y: int, t: EmptyHome) -> Seq<Op<Seq<char>>> {
    let l = s.faces.label;
    if t.serves() {
        let size = match t.code {
            Some(q) => q as int,
            None => 0,
        };
        let x = INSET + size + 12;
        (match t.code {
            Some(_) => seq![Op::Code(INSET, y as i32, 4)],
            None => Seq::empty(),
        }) + seq![
            crate::draw::plain(Face::ListTitle, x, crate::draw::at(y + 30), t.address@, None, false),
            crate::draw::plain(
                Face::Label,
                x,
                crate::draw::at(y + 30 + l.line_h + 6),
                "Scan, then drag books onto the page."@,
                None,
                false,
            ),
        ]
    } else {
        widgets::plain_lines(
            Face::Label,
            INSET as int,
            y + l.ascent,
            l.line_h as int,
            text::texts(t.hint@),
            t.hint@.len() as int,
        )
    }
}

/// What the empty home page draws.
pub open spec fn empty_home_ops(s: Sheet, t: EmptyHome) -> Seq<Op<Seq<char>>> {
    let (ti, b, l) = (s.faces.title, s.faces.body, s.faces.label);
    let y1 = 40 + ti.ascent + ti.below + 8;
    let y2 = y1 + t.lines@.len() * b.line_h + 24;
    let y3 = y2 + l.line_h + 8;
    let y4 = y3 + t.shown() * pick_h(s);
    let y5 = y4 + 28;
    let y6 = y5 + l.line_h + 8;
    seq![crate::draw::plain(Face::Title, INSET as int, crate::draw::at(40 + ti.ascent), "Nothing open yet"@, None, false)]
        + widgets::plain_lines(
        Face::Body,
        INSET as int,
        y1 + b.ascent,
        b.line_h as int,
        text::texts(t.lines@),
        t.lines@.len() as int,
    ) + seq![crate::draw::caps(INSET as int, y2 + l.ascent, "Free in the Bookshop"@, None, false)] + picks_ops(
        s,
        y3,
        t.start_here@,
        t.shown(),
    ) + seq![
        crate::draw::fill(INSET as int, y4, s.w - 2 * INSET, 1, Ink::Black),
        crate::draw::caps(INSET as int, y5 + l.ascent, "Or drop your own"@, None, false),
    ] + home_foot_ops(s, y6, t) + widgets::side_labels_ops(
        s,
        Some(("Drop"@, t.drop_w as int)),
        Some(("Stats"@, t.stats_w as int)),
    ) + widgets::rail_ops(s, seq!["Library"@, "Close"@, "Library"@, "Bookshop"@], None)
}

fn pick(f: &mut Frame, y: i32, b: &StartHere)
    requires
        old(f).sheet.wf(),
        0 <= y <= 0x80_0000,
        b.hours.wf(),
    ensures
        final(f).sheet == old(f).sheet,
        final(f)@ == old(f)@ + pick_ops(old(f).sheet, y as int, *b),
{
    let w: i32 = f.width() as i32;
    let cw: i32 = w - 2 * INSET;
    let body = f.sheet.faces.body;
    let l = f.sheet.faces.label;
    let vw: i32 = b.hours.width;
    f.fill_rect(Rect::new(INSET, y, cw as u32, 1), Ink::Black);
    f.text(Face::Body, INSET, Base::At(y + 12 + body.ascent), &b.title, Some(cw - vw - 24), false);
    f.text(Face::Mono, w - INSET - vw, Base::At(y + 12 + body.ascent), &b.hours.text, None, false);
    f.text(Face::Label, INSET, Base::At(y + 12 + body.line_h + l.ascent), &b.author, Some(cw - vw - 24), false);
    assert(f@ =~= old(f)@ + pick_ops(old(f).sheet, y as int, *b));
}

fn picks(f: &mut Frame, y: i32, books: &Vec<StartHere>, n: usize) -> (end: i32)
    requires
        old(f).sheet.wf(),
        0 <= y <= 0x60_0000,
        n <= 3,
        n <= books@.len(),
        forall|i: int| 0 <= i < books@.len() ==> (#[trigger] books@[i]).hours.wf(),
    ensures
        end == y + n * pick_h(old(f).sheet),
        final(f).sheet == old(f).sheet,
        final(f)@ == old(f)@ + picks_ops(old(f).sheet, y as int, books@, n as int),
{
    let ghost s = f.sheet;
    let h: i32 = 12 + f.sheet.faces.body.line_h + f.sheet.faces.label.line_h + 12;
    let mut yy: i32 = y;
    let mut i: usize = 0;
    assert(f@ =~= old(f)@ + picks_ops(s, y as int, books@, 0));
    while i < n
        invariant
            i <= n <= 3,
            n <= books@.len(),
            forall|i: int| 0 <= i < books@.len() ==> (#[trigger] books@[i]).hours.wf(),
            s == old(f).sheet,
            s.wf(),
            f.sheet == s,
            h == pick_h(s),
            0 <= y <= 0x60_0000,
            yy == y + i * h,
            f@ == old(f)@ + picks_ops(s, y as int, books@, i as int),
        decreases n - i,
    {
        assert(0 <= i * h <= 3 * h && i * h + h == (i + 1) * h) by (nonlinear_arith)
            requires
                0 <= i <= 3,
                0 <= h,
        ;
        pick(f, yy, &books[i]);
        assert(f@ =~= old(f)@ + picks_ops(s, y as int, books@, i + 1));
        yy = yy + h;
        i += 1;
    }
    yy
}

fn home_foot(f: &mut Frame, y: i32, t: &EmptyHome)
    requires
        old(f).sheet.wf(),
        t.wf(old(f).sheet),
        0 <= y <= 0x80_0000,
    ensures
        final(f).sheet == old(f).sheet,
        final(f)@ == old(f)@ + home_foot_ops(old(f).sheet, y as int, *t),
{
    let l = f.sheet.faces.label;
    let serves = match &t.wifi {
        WifiState::Connected { .. } | WifiState::Hotspot { .. } => true,
        _ => false,
    };
    if serves {
        let size: i32 = match t.code {
            Some(q) => q,
            None => 0,
        };
        if t.code.is_some() {
            f.draw(Op::Code(INSET, y, 4));
        }
        f.text(Face::ListTitle, INSET + size + 12, Base::At(y + 30), &t.address, None, false);
        f.text(
            Face::Label,
            INSET + size + 12,
            Base::At(y + 30 + l.line_h + 6),
            "Scan, then drag books onto the page.",
            None,
            false,
        );
    } else {
        widgets::draw_lines(f, Face::Label, INSET, y + l.ascent, l.line_h, &t.hint);
    }
    assert(f@ =~= old(f)@ + home_foot_ops(old(f).sheet, y as int, *t));
}

/// The empty home page: nothing open yet, three Start-here picks and the Drop code.
#[verifier::spinoff_prover]
#[verifier::rlimit(60)]
pub fn draw_empty_home(f: &mut Frame, t: &EmptyHome)
    requires
        old(f).sheet.wf(),
        t.wf(old(f).sheet),
    ensures
        final(f).sheet == old(f).sheet,
        final(f)@ == old(f)@ + empty_home_ops(old(f).sheet, *t),
{
    let ti = f.sheet.faces.title;
    let b = f.sheet.faces.body;
    let l = f.sheet.faces.label;
    let w: i32 = f.width() as i32;
    f.text(Face::Title, INSET, Base::At(40 + ti.ascent), "Nothing open yet", None, false);
    let y1: i32 = 40 + ti.ascent + ti.below + 8;
    widgets::draw_lines(f, Face::Body, INSET, y1 + b.ascent, b.line_h, &t.lines);
    assert(t.lines@.len() * b.line_h <= 0x400 * 0x1000) by (nonlinear_arith)
        requires
            t.lines@.len() <= 0x400,
            0 <= b.line_h <= 0x1000,
    ;
    let y2: i32 = y1 + widgets::lines_h(t.lines.len(), b.line_h) + 24;
    f.label(INSET, y2 + l.ascent, "Free in the Bookshop", None, false);
    let n: usize = if t.start_here.len() < 3 { t.start_here.len() } else { 3 };
    let y4: i32 = picks(f, y2 + l.line_h + 8, &t.start_here, n);
    proof {
        let h = pick_h(f.sheet);
        assert(0 <= n * h <= 3 * h) by (nonlinear_arith)
            requires
                0 <= n <= 3,
                0 <= h,
        ;
    }
    f.fill_rect(Rect::new(INSET, y4, (w - 2 * INSET) as u32, 1), Ink::Black);
    f.label(INSET, y4 + 28 + l.ascent, "Or drop your own", None, false);
    home_foot(f, y4 + 28 + l.line_h + 8, t);
    let drop = Measured { text: text::owned("Drop"), width: t.drop_w };
    let stats = Measured { text: text::owned("Stats"), width: t.stats_w };
    widgets::side_labels(f, Some(&drop), Some(&stats), true);
    widgets::rail(f, ["Library", "Close", "Library", "Bookshop"], None);
    assert(f@ =~= old(f)@ + empty_home_ops(old(f).sheet, *t));
}

proof fn lemma_list_shows(
    s: Sheet,
    row_h: int,
    rows: Seq<JumpRow>,
    widths: Seq<i32>,
    hits: Seq<int>,
    focus: int,
    vi: int,
    end: int,
    y: int,
    k: int,
)
    requires
        0 <= k < end - vi,
        0 < row_h,
        y + (k + 1) * row_h <= s.h - s.theme.rail_h,
    ensures
        crate::draw::shows(
            list_ops(s, row_h, rows, widths, hits, false, focus, vi, end, y, None),
            rows[hits[vi + k]].title@,
        ),
        crate::draw::shows(
            list_ops(s, row_h, rows, widths, hits, false, focus, vi, end, y, None),
            rows[hits[vi + k]].value@,
        ),
    decreases k,
{
    broadcast use {
        crate::draw::lemma_shows_in_two,
        crate::draw::lemma_shows_pushed,
        crate::draw::lemma_shows_between_two,
        crate::draw::lemma_shows_between_pushed,
        crate::draw::lemma_written_in_two,
        crate::draw::lemma_written_pushed,
        crate::draw::lemma_draws_in_two,
        crate::draw::lemma_draws_pushed,
    };
    let r = rows[hits[vi]];
    assert(row_h <= (k + 1) * row_h) by (nonlinear_arith)
        requires
            0 <= k,
            0 < row_h,
    ;
    widgets::law_rows_say_what_they_are_given(
        s,
        y,
        row_h,
        r.title@,
        None,
        Some((r.value@, widths[hits[vi]] as int)),
        crate::firstrun_draw::row_state(focus == vi),
    );
    if k > 0 {
        assert(y + row_h + (k - 1 + 1) * row_h == y + (k + 1) * row_h) by (nonlinear_arith);
        lemma_list_shows(s, row_h, rows, widths, hits, focus, vi + 1, end, y + row_h, k - 1);
    }
}

/// The rows found for a query are listed in their order, each with its title and value, as many as fit on the page.
pub proof fn law_found_rows_are_listed(
    s: Sheet,
    nav: ListNav,
    query: Seq<char>,
    rows: Seq<JumpRow>,
    hits: Seq<int>,
    row_h: int,
    widths: Seq<i32>,
    query_w: int,
    hint_w: int,
    k: int,
)
    requires
        query.len() > 0,
        nav.per_page > 0,
        0 < row_h,
        0 <= k < nav.per_page,
        nav.page_of() * nav.per_page + k < nav.n,
        SEARCH_H + (k + 1) * row_h <= s.h - s.theme.rail_h,
    ensures
        ({
            let ops = jump_ops(s, nav, query, rows, hits, row_h, widths, query_w, hint_w);
            let row = rows[hits[nav.page_of() * nav.per_page + k]];
            crate::draw::shows(ops, row.title@) && crate::draw::shows(ops, row.value@) && crate::draw::shows(ops, query)
        }),
{
    broadcast use {
        crate::draw::lemma_shows_in_two,
        crate::draw::lemma_shows_pushed,
        crate::draw::lemma_shows_between_two,
        crate::draw::lemma_shows_between_pushed,
        crate::draw::lemma_written_in_two,
        crate::draw::lemma_written_pushed,
        crate::draw::lemma_draws_in_two,
        crate::draw::lemma_draws_pushed,
    };
    let start = nav.page_of() * nav.per_page;
    let end = if start + nav.per_page < nav.n {
        start + nav.per_page
    } else {
        nav.n as int
    };
    lemma_list_shows(s, row_h, rows, widths, hits, nav.focus as int, start, end, SEARCH_H as int, k);
}

/// The groups are headed by what they hold: the books read last, everything, and the apps and games.
pub proof fn law_groups_are_headed(
    s: Sheet,
    nav: ListNav,
    rows: Seq<JumpRow>,
    hits: Seq<int>,
    row_h: int,
    widths: Seq<i32>,
    query_w: int,
    hint_w: int,
)
    requires
        nav.per_page > 0,
        nav.page_of() * nav.per_page < nav.n,
        SEARCH_H + GROUP_H + row_h <= s.h - s.theme.rail_h,
    ensures
        ({
            let ops = jump_ops(s, nav, Seq::empty(), rows, hits, row_h, widths, query_w, hint_w);
            let first = rows[hits[nav.page_of() * nav.per_page]];
            &&& crate::draw::shows(ops, first.title@)
            &&& first.group == 0 ==> crate::draw::shows(ops, "Recent"@)
            &&& first.group == 1 ==> crate::draw::shows(ops, "Everything"@)
            &&& first.group == 2 ==> crate::draw::shows(ops, "Apps and games"@)
        }),
{
    broadcast use {
        crate::draw::lemma_shows_in_two,
        crate::draw::lemma_shows_pushed,
        crate::draw::lemma_shows_between_two,
        crate::draw::lemma_shows_between_pushed,
        crate::draw::lemma_written_in_two,
        crate::draw::lemma_written_pushed,
        crate::draw::lemma_draws_in_two,
        crate::draw::lemma_draws_pushed,
    };
    let start = nav.page_of() * nav.per_page;
    let r = rows[hits[start]];
    widgets::law_rows_say_what_they_are_given(
        s,
        SEARCH_H + GROUP_H,
        row_h,
        r.title@,
        None,
        Some((r.value@, widths[hits[start]] as int)),
        crate::firstrun_draw::row_state(nav.focus == start),
    );
}

/// The list keeps its place where the rows found become fewer: the focus is on the last of them at most.
pub proof fn law_focus_stays_on_the_rows_found(nav: ListNav, hits: int, per: int)
    requires
        0 <= hits <= 0x1_0000,
        0 < per <= 0x1_0000,
    ensures
        fitted(nav, hits, per).n == hits,
        fitted(nav, hits, per).per_page == per,
        nav.focus < hits ==> fitted(nav, hits, per).focus == nav.focus,
        hits > 0 && nav.focus >= hits ==> fitted(nav, hits, per).focus == hits - 1,
        hits == 0 ==> fitted(nav, hits, per).focus == 0,
{
}

proof fn lemma_picks_show(s: Sheet, y: int, books: Seq<StartHere>, n: int, i: int)
    requires
        0 <= i < n <= books.len(),
    ensures
        crate::draw::shows(picks_ops(s, y, books, n), books[i].title@),
        crate::draw::shows(picks_ops(s, y, books, n), books[i].author@),
    decreases n,
{
    broadcast use {
        crate::draw::lemma_shows_in_two,
        crate::draw::lemma_shows_pushed,
        crate::draw::lemma_shows_between_two,
        crate::draw::lemma_shows_between_pushed,
        crate::draw::lemma_written_in_two,
        crate::draw::lemma_written_pushed,
        crate::draw::lemma_draws_in_two,
        crate::draw::lemma_draws_pushed,
    };
    if i < n - 1 {
        lemma_picks_show(s, y, books, n - 1, i);
    }
}

/// A home without a book offers the first three there are to start with, and where the reader serves its page, the
/// address of it.
pub proof fn law_empty_home_offers_books(s: Sheet, t: EmptyHome, i: int)
    requires
        0 <= i < t.start_here@.len(),
        i < 3,
    ensures
        crate::draw::shows(empty_home_ops(s, t), t.start_here@[i].title@),
        crate::draw::shows(empty_home_ops(s, t), t.start_here@[i].author@),
        t.wifi is Connected || t.wifi is Hotspot ==> crate::draw::shows(empty_home_ops(s, t), t.address@),
        crate::draw::shows(empty_home_ops(s, t), "Nothing open yet"@),
{
    broadcast use {
        crate::draw::lemma_shows_in_two,
        crate::draw::lemma_shows_pushed,
        crate::draw::lemma_shows_between_two,
        crate::draw::lemma_shows_between_pushed,
        crate::draw::lemma_written_in_two,
        crate::draw::lemma_written_pushed,
        crate::draw::lemma_draws_in_two,
        crate::draw::lemma_draws_pushed,
    };
    let (ti, b, l) = (s.faces.title, s.faces.body, s.faces.label);
    let y1 = 40 + ti.ascent + ti.below + 8;
    let y2 = y1 + t.lines@.len() * b.line_h + 24;
    let y3 = y2 + l.line_h + 8;
    lemma_picks_show(s, y3, t.start_here@, t.shown(), i);
}

/// Jump says over the keys how to close it and how to open a row, and which of its pages is shown.
pub proof fn law_jump_says_its_page(
    s: Sheet,
    nav: ListNav,
    query: Seq<char>,
    rows: Seq<JumpRow>,
    hits: Seq<int>,
    row_h: int,
    widths: Seq<i32>,
    query_w: int,
    hint_w: int,
)
    requires
        s.wf(),
        nav.wf(),
    ensures
        ({
            let ops = jump_ops(s, nav, query, rows, hits, row_h, widths, query_w, hint_w);
            let cell = s.w as int / 4;
            &&& crate::draw::shows_between(ops, "Close"@, cell, 2 * cell)
            &&& crate::draw::shows_between(ops, "Open"@, 2 * cell, 3 * cell)
            &&& crate::draw::shows_between(
                ops,
                text::decimal((nav.page_of() + 1) as nat) + " / "@ + text::decimal(nav.page_count() as nat),
                3 * cell,
                4 * cell,
            )
        }),
{
    broadcast use {
        crate::draw::lemma_shows_in_two,
        crate::draw::lemma_shows_pushed,
        crate::draw::lemma_shows_between_two,
        crate::draw::lemma_shows_between_pushed,
        crate::draw::lemma_written_in_two,
        crate::draw::lemma_written_pushed,
        crate::draw::lemma_draws_in_two,
        crate::draw::lemma_draws_pushed,
    };
    let page = text::decimal((nav.page_of() + 1) as nat) + " / "@ + text::decimal(nav.page_count() as nat);
    let labels = seq![""@, "Close"@, "Open"@, page];
    reveal_strlit("Close");
    reveal_strlit("Open");
    reveal_strlit("—");
    assert("—"@.len() == 1 && "Close"@.len() == 5 && "Open"@.len() == 4);
    text::law_decimal_reads_back((nav.page_of() + 1) as nat);
    reveal_strlit(" / ");
    assert(page.len() >= 3);
    widgets::law_rail_labels_stand_over_their_keys(s, labels, None, 1);
    widgets::law_rail_labels_stand_over_their_keys(s, labels, None, 2);
    widgets::law_rail_labels_stand_over_their_keys(s, labels, None, 3);
}

/// The home without a book says over the keys where they lead.
pub proof fn law_empty_home_says_its_keys(s: Sheet, t: EmptyHome)
    requires
        s.wf(),
    ensures
        ({
            let ops = empty_home_ops(s, t);
            let cell = s.w as int / 4;
            &&& crate::draw::shows_between(ops, "Library"@, 0, cell)
            &&& crate::draw::shows_between(ops, "Close"@, cell, 2 * cell)
            &&& crate::draw::shows_between(ops, "Bookshop"@, 3 * cell, 4 * cell)
        }),
{
    broadcast use {
        crate::draw::lemma_shows_in_two,
        crate::draw::lemma_shows_pushed,
        crate::draw::lemma_shows_between_two,
        crate::draw::lemma_shows_between_pushed,
        crate::draw::lemma_written_in_two,
        crate::draw::lemma_written_pushed,
        crate::draw::lemma_draws_in_two,
        crate::draw::lemma_draws_pushed,
    };
    let labels = seq!["Library"@, "Close"@, "Library"@, "Bookshop"@];
    reveal_strlit("Close");
    reveal_strlit("Library");
    reveal_strlit("Bookshop");
    reveal_strlit("—");
    assert("—"@.len() == 1 && "Close"@.len() == 5 && "Library"@.len() == 7 && "Bookshop"@.len() == 8);
    widgets::law_rail_labels_stand_over_their_keys(s, labels, None, 0);
    widgets::law_rail_labels_stand_over_their_keys(s, labels, None, 1);
    widgets::law_rail_labels_stand_over_their_keys(s, labels, None, 3);
}

/// The caret of the search stands right behind the query, and at its start where there is none yet.
pub proof fn law_search_caret_stands_behind_the_query(s: Sheet, query: Seq<char>, query_w: int, hint_w: int)
    requires
        s.wf(),
        0 <= query_w <= 0x1_0000,
    ensures
        ({
            let caret = search_ops(s, query, query_w, hint_w)[2];
            &&& caret is Fill
            &&& query.len() == 0 ==> caret->Fill_0.x == s.theme.row_pad
            &&& query.len() > 0 ==> caret->Fill_0.x == s.theme.row_pad + query_w + 2
        }),
        crate::draw::shows(search_ops(s, query, query_w, hint_w), query),
{
    broadcast use {
        crate::draw::lemma_shows_in_two,
        crate::draw::lemma_shows_pushed,
        crate::draw::lemma_shows_between_two,
        crate::draw::lemma_shows_between_pushed,
        crate::draw::lemma_written_in_two,
        crate::draw::lemma_written_pushed,
        crate::draw::lemma_draws_in_two,
        crate::draw::lemma_draws_pushed,
    };
}

} // verus!
