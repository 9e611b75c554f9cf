//! One-bit charts: the ink line (bars) and the step line.
use vstd::prelude::*;

use crate::draw::{Base, Face, Frame, Ink, Op, Pattern, Rect, Sheet};
use crate::text;

verus! {

/// The tallest of the first `k` values.
pub open spec fn tallest_of(values: Seq<u32>, k: int) -> int
    decreases k,
{
    if k <= 0 {
        0
    } else if values[k - 1] > tallest_of(values, k - 1) {
        values[k - 1] as int
    } else {
        tallest_of(values, k - 1)
    }
}

/// Where the first of the tallest of the first `k` values stands.
pub open spec fn tallest_at(values: Seq<u32>, k: int) -> int
    decreases k,
{
    if k <= 0 {
        0
    } else if values[k - 1] > tallest_of(values, k - 1) {
        k - 1
    } else {
        tallest_at(values, k - 1)
    }
}

/// What bars are scaled to: the tallest value, or 1.
pub open spec fn scale_of(values: Seq<u32>) -> int {
    let t = tallest_of(values, values.len() as int);
    if t > 1 {
        t
    } else {
        1
    }
}

/// A value scaled to a height.
pub open spec fn scaled(v: int, height: int, scale: int) -> int {
    v * height / scale
}

fn tallest(values: &Vec<u32>) -> (r: (usize, u32))
    ensures
        r.1 == tallest_of(values@, values@.len() as int),
        r.0 == tallest_at(values@, values@.len() as int),
        values@.len() > 0 ==> r.0 < values@.len(),
        forall|i: int| 0 <= i < values@.len() ==> #[trigger] values@[i] <= r.1,
{
    let mut at: usize = 0;
    let mut best: u32 = 0;
    let mut i: usize = 0;
    while i < values.len()
        invariant
            i <= values@.len(),
            best == tallest_of(values@, i as int),
            at == tallest_at(values@, i as int),
            at <= i,
            i > 0 ==> at < i,
            forall|j: int| 0 <= j < i ==> #[trigger] values@[j] <= best,
        decreases values@.len() - i,
    {
        if values[i] > best {
            at = i;
            best = values[i];
        }
        i += 1;
    }
    (at, best)
}

fn scale(v: u32, height: u32, full: u32) -> (r: i32)
    requires
        0 < full,
        height <= 0x1_0000,
        scaled(v as int, height as int, full as int) <= 0x1000_0000,
    ensures
        r == scaled(v as int, height as int, full as int),
        0 <= r <= 0x1000_0000,
{
    assert(0 <= v * height <= 0xffff_ffff * 0x1_0000) by (nonlinear_arith)
        requires
            0 <= v <= 0xffff_ffff,
            0 <= height <= 0x1_0000,
    ;
    assert(0 <= (v * height) / (full as int)) by (nonlinear_arith)
        requires
            0 <= v * height,
            full > 0,
    ;
    (v as u64 * height as u64 / full as u64) as i32
}

proof fn lemma_scaled_fits(v: int, height: int, full: int)
    requires
        0 <= v <= full,
        0 < full,
        0 <= height,
    ensures
        0 <= scaled(v, height, full) <= height,
{
    assert(0 <= v * height / full <= height) by (nonlinear_arith)
        requires
            0 <= v <= full,
            0 < full,
            0 <= height,
    ;
}

/// The part of an ink line that holds the bars.
pub open spec fn chart_rect(s: Sheet, r: Rect) -> Rect {
    let label_h = s.faces.label.line_h + 4;
    let taken = s.faces.mono.line_h + 6 + label_h;
    crate::draw::rect(r.x as int, r.y + label_h, r.w as int, if r.h >= taken { r.h - taken } else { 0 })
}

/// The width of a bar of `n`, 4 px at least.
pub open spec fn bar_w(w: int, n: int) -> int {
    let room = w - 2 * (n - 1);
    if room >= 4 * n {
        room / n
    } else {
        4
    }
}

/// What bar `i` draws: the value in ink, and what the other series has above it hatched.
pub open spec fn bar_ops(chart: Rect, bw: int, full: int, i: int, v: int, over: Option<int>) -> Seq<Op<Seq<char>>> {
    let base = chart.bottom_edge() - 2;
    let h = scaled(v, chart.h - 2, full);
    let x = chart.x + i * (bw + 2);
    (if h > 0 { seq![crate::draw::fill(x, base - h, bw, h, Ink::Black)] } else { Seq::empty() }) + (match over {
        Some(sv) => {
            let sh = scaled(sv, chart.h - 2, full);
            if sh > h {
                seq![Op::Pattern(crate::draw::rect(x, base - sh, bw, sh - h), Pattern::Hatch(3))]
            } else {
                Seq::empty()
            }
        },
        None => Seq::empty(),
    })
}

/// The other series' value at `i`, if it has one.
pub open spec fn over_at(hatched: Option<Seq<u32>>, i: int) -> Option<int> {
    match hatched {
        Some(h) => if i < h.len() {
            Some(h[i] as int)
        } else {
            None
        },
        None => None,
    }
}

/// What the first `k` bars draw.
pub open spec fn bars_to(
    chart: Rect,
    bw: int,
    values: Seq<u32>,
    hatched: Option<Seq<u32>>,
    k: int,
) -> Seq<Op<Seq<char>>>
    decreases k,
{
    if k <= 0 {
        Seq::empty()
    } else {
        bars_to(chart, bw, values, hatched, k - 1) + bar_ops(
            chart,
            bw,
            scale_of(values),
            k - 1,
            values[k - 1] as int,
            over_at(hatched, k - 1),
        )
    }
}

/// The text over the tallest bar.
pub open spec fn tallest_label(values: Seq<u32>, unit: Seq<char>) -> Seq<char> {
    text::decimal(tallest_of(values, values.len() as int) as nat) + unit
}

/// What an ink line draws; `tw` is the width of the text over its tallest bar.
pub open spec fn ink_line_ops(
    s: Sheet,
    r: Rect,
    values: Seq<u32>,
    labels: (Seq<char>, Seq<char>, Seq<char>),
    unit: Seq<char>,
    tw: int,
    hatched: Option<Seq<u32>>,
) -> Seq<Op<Seq<char>>> {
    let n = if values.len() > 0 { values.len() as int } else { 1 };
    let chart = chart_rect(s, r);
    let bw = bar_w(chart.w as int, n);
    let base = chart.bottom_edge() - 2;
    let ay = crate::draw::at(base + 6 + s.faces.mono.ascent);
    let wish = chart.x + tallest_at(values, values.len() as int) * (bw + 2) + bw / 2 - tw / 2;
    let lx = if wish < r.x { r.x as int } else if wish > r.right_edge() - tw { r.right_edge() - tw } else { wish };
    seq![crate::draw::fill(chart.x as int, base, chart.w as int, 2, Ink::Black)] + bars_to(
        chart,
        bw,
        values,
        hatched,
        values.len() as int,
    ) + (if tallest_of(values, values.len() as int) > 0 {
        seq![
            crate::draw::plain(
                Face::Label,
                lx,
                crate::draw::at(r.y + s.faces.label.ascent),
                tallest_label(values, unit),
                None,
                false,
            ),
        ]
    } else {
        Seq::empty()
    }) + seq![
        crate::draw::plain(Face::Mono, chart.x as int, ay, labels.0, None, false),
        crate::draw::centred(Face::Mono, chart.x + chart.w as int / 2, ay, labels.1, None, false),
        crate::draw::ended(Face::Mono, chart.right_edge(), ay, labels.2),
    ]
}

fn bar(f: &mut Frame, chart: Rect, bw: i32, full: u32, i: usize, v: u32, over: Option<u32>)
    requires
        chart.sane(),
        2 <= chart.h <= 0x1_0000,
        0 < bw <= 0x1_0000,
        i <= 0x1000,
        0 < full,
        v <= full,
        over matches Some(sv) ==> scaled(sv as int, chart.h - 2, full as int) <= 0x1000_0000,
    ensures
        final(f).sheet == old(f).sheet,
        final(f)@ == old(f)@ + bar_ops(
            chart,
            bw as int,
            full as int,
            i as int,
            v as int,
            match over {
                Some(sv) => Some(sv as int),
                None => None,
            },
        ),
{
    proof {
        lemma_scaled_fits(v as int, chart.h - 2, full as int);
        assert(0 <= i * (bw + 2) <= 0x1000 * 0x1_0002) by (nonlinear_arith)
            requires
                0 <= i <= 0x1000,
                0 <= bw <= 0x1_0000,
        ;
    }
    let base: i32 = chart.bottom() - 2;
    let h: i32 = scale(v, chart.h - 2, full);
    let x: i32 = chart.x + i as i32 * (bw + 2);
    if h > 0 {
        f.fill_rect(Rect::new(x, base - h, bw as u32, h as u32), Ink::Black);
    }
    if let Some(sv) = over {
        let sh: i32 = scale(sv, chart.h - 2, full);
        if sh > h {
            f.pattern_rect(Rect::new(x, base - sh, bw as u32, (sh - h) as u32), Pattern::Hatch(3));
        }
    }
    assert(f@ =~= old(f)@ + bar_ops(
        chart,
        bw as int,
        full as int,
        i as int,
        v as int,
        match over {
            Some(sv) => Some(sv as int),
            None => None,
        },
    ));
}

/// A list of values as it is seen, if there is one.
pub open spec fn seen_values(v: Option<&Vec<u32>>) -> Option<Seq<u32>> {
    match v {
        Some(v) => Some(v@),
        None => None,
    }
}

fn bars(f: &mut Frame, chart: Rect, bw: i32, values: &Vec<u32>, full: u32, hatched: Option<&Vec<u32>>)
    requires
        chart.sane(),
        values@.len() > 0 ==> chart.h >= 2,
        chart.h <= 0x1_0000,
        0 < bw <= 0x1_0000,
        values@.len() <= 0x1000,
        full == scale_of(values@),
        forall|i: int| 0 <= i < values@.len() ==> #[trigger] values@[i] <= full,
        hatched matches Some(h) ==> forall|i: int|
            0 <= i < h@.len() && i < values@.len() ==> scaled(#[trigger] h@[i] as int, chart.h - 2, full as int) <= 0x1000_0000,
    ensures
        final(f).sheet == old(f).sheet,
        final(f)@ == old(f)@ + bars_to(chart, bw as int, values@, seen_values(hatched), values@.len() as int),
{
    let ghost hs = seen_values(hatched);
    let mut i: usize = 0;
    assert(f@ =~= old(f)@ + bars_to(chart, bw as int, values@, hs, 0));
    while i < values.len()
        invariant
            i <= values@.len() <= 0x1000,
            chart.sane(),
            values@.len() > 0 ==> chart.h >= 2,
            chart.h <= 0x1_0000,
            0 < bw <= 0x1_0000,
            full == scale_of(values@),
            full > 0,
            hs == seen_values(hatched),
            forall|j: int| 0 <= j < values@.len() ==> #[trigger] values@[j] <= full,
            hatched matches Some(h) ==> forall|j: int|
                0 <= j < h@.len() && j < values@.len() ==> scaled(#[trigger] h@[j] as int, chart.h - 2, full as int)
                    <= 0x1000_0000,
            f.sheet == old(f).sheet,
            f@ == old(f)@ + bars_to(chart, bw as int, values@, hs, i as int),
        decreases values@.len() - i,
    {
        let over: Option<u32> = match hatched {
            Some(h) => if i < h.len() {
                Some(h[i])
            } else {
                None
            },
            None => None,
        };
        assert(values@[i as int] <= full);
        bar(f, chart, bw, full, i, values[i], over);
        assert(f@ =~= old(f)@ + bars_to(chart, bw as int, values@, hs, i + 1));
        i += 1;
    }
}

fn bar_width(w: i32, n: i32) -> (r: i32)
    requires
        0 <= w <= 0x1_0000,
        0 < n <= 0x1000,
    ensures
        r == bar_w(w as int, n as int),
        4 <= r <= 0x1_0000,
{
    let room: i32 = w - 2 * (n - 1);
    if room >= 4 * n {
        proof {
            let (a, b) = (room as int, n as int);
            assert(4 <= a / b <= a) by (nonlinear_arith)
                requires
                    a >= 4 * b,
                    b > 0,
            ;
        }
        room / n
    } else {
        4
    }
}

/// What is required of an ink line: it fits on a panel, there is room for its bars, and the text over
/// the tallest one is not wider than the line.
pub open spec fn ink_line_fits(s: Sheet, r: Rect, values: Seq<u32>, tw: int, hatched: Option<Seq<u32>>) -> bool {
    let chart = chart_rect(s, r);
    &&& s.wf()
    &&& r.sane()
    &&& r.y + 0x2000 <= crate::draw::FAR
    &&& r.w <= 0x1_0000
    &&& r.h <= 0x1_0000
    &&& values.len() <= 0x1000
    &&& 0 <= tw <= r.w
    &&& values.len() > 0 ==> chart.h >= 2
    &&& hatched matches Some(h) ==> forall|i: int|
        0 <= i < h.len() && i < values.len() ==> scaled(#[trigger] h[i] as int, chart.h - 2, scale_of(values)) <= 0x1000_0000
}

/// A 1-bit bar chart ("ink line"): solid bars, 2 px gaps, 2 px baseline, tallest labelled, axis labels
/// at first, middle and last. `tw` is the width of [`tallest_text`] in the label face.
#[verifier::spinoff_prover]
#[verifier::rlimit(60)]
pub fn ink_line(
    f: &mut Frame,
    r: Rect,
    values: &Vec<u32>,
    labels: (&str, &str, &str),
    unit: &str,
    tw: i32,
    hatched: Option<&Vec<u32>>,
)
    requires
        ink_line_fits(old(f).sheet, r, values@, tw as int, seen_values(hatched)),
    ensures
        final(f).sheet == old(f).sheet,
        final(f)@ == old(f)@ + ink_line_ops(
            old(f).sheet,
            r,
            values@,
            (labels.0@, labels.1@, labels.2@),
            unit@,
            tw as int,
            seen_values(hatched),
        ),
{
    let mono = f.sheet.faces.mono;
    let label = f.sheet.faces.label;
    let label_h: i32 = label.line_h + 4;
    let taken: i32 = mono.line_h + 6 + label_h;
    let ch: u32 = if r.h >= taken as u32 { r.h - taken as u32 } else { 0 };
    let chart = Rect::new(r.x, r.y + label_h, r.w, ch);
    assert(chart == chart_rect(f.sheet, r));
    let n: i32 = if values.len() > 0 { values.len() as i32 } else { 1 };
    let bw: i32 = bar_width(chart.w as i32, n);
    let (at, best) = tallest(values);
    let full: u32 = if best > 1 { best } else { 1 };
    let base: i32 = r.y + label_h + ch as i32 - 2;
    f.fill_rect(Rect::new(chart.x, base, chart.w, 2), Ink::Black);
    proof {
        if let Some(h) = hatched {
            let hs = seen_values(hatched)->0;
            assert forall|i: int| 0 <= i < h@.len() && i < values@.len() implies scaled(
                #[trigger] h@[i] as int,
                chart.h - 2,
                full as int,
            ) <= 0x1000_0000 by {
                assert(hs[i] == h@[i]);
            }
        }
    }
    bars(f, chart, bw, values, full, hatched);
    if best > 0 {
        let lx: i32 = tallest_x(chart, bw, at, tw, r);
        let t = tallest_text(values, unit);
        f.text(Face::Label, lx, Base::At(r.y + label.ascent), &t, None, false);
    }
    let ay: i32 = base + 6 + mono.ascent;
    f.text(Face::Mono, chart.x, Base::At(ay), labels.0, None, false);
    f.text_centred(Face::Mono, chart.x + chart.w as i32 / 2, Base::At(ay), labels.1, None, false);
    f.text_ended(Face::Mono, chart.x + chart.w as i32, Base::At(ay), labels.2);
    assert(f@ =~= old(f)@ + ink_line_ops(
        old(f).sheet,
        r,
        values@,
        (labels.0@, labels.1@, labels.2@),
        unit@,
        tw as int,
        seen_values(hatched),
    ));
}

fn tallest_x(chart: Rect, bw: i32, at: usize, tw: i32, r: Rect) -> (lx: i32)
    requires
        chart.sane(),
        r.sane(),
        0 < bw <= 0x1_0000,
        at <= 0x1000,
        0 <= tw <= r.w,
    ensures
        ({
            let wish = chart.x + at * (bw + 2) + bw as int / 2 - tw as int / 2;
            lx == if wish < r.x {
                r.x as int
            } else if wish > r.right_edge() - tw {
                r.right_edge() - tw
            } else {
                wish
            }
        }),
{
    assert(0 <= at * (bw + 2) <= 0x1000 * 0x1_0002) by (nonlinear_arith)
        requires
            0 <= at <= 0x1000,
            0 <= bw <= 0x1_0000,
    ;
    let wish: i32 = chart.x + at as i32 * (bw + 2) + bw / 2 - tw / 2;
    let most: i32 = r.right() - tw;
    if wish < r.x {
        r.x
    } else if wish > most {
        most
    } else {
        wish
    }
}

/// The text over the tallest bar.
pub fn tallest_text(values: &Vec<u32>, unit: &str) -> (r: String)
    ensures
        r@ == tallest_label(values@, unit@),
{
    let (_, best) = tallest(values);
    text::join2(&text::number(best as u64), unit)
}

/// No bar is taller than the chart, and the tallest one fills it.
pub proof fn law_bars_fit(values: Seq<u32>, i: int, height: int)
    requires
        0 <= i < values.len(),
        0 <= height,
    ensures
        0 <= scaled(values[i] as int, height, scale_of(values)) <= height,
        values[i] == tallest_of(values, values.len() as int) && values[i] > 0 ==> scaled(
            values[i] as int,
            height,
            scale_of(values),
        ) == height,
{
    lemma_tallest_is_tallest(values, i, values.len() as int);
    lemma_scaled_fits(values[i] as int, height, scale_of(values));
    let (v, s) = (values[i] as int, scale_of(values));
    if v == s {
        assert(v * height / v == height) by (nonlinear_arith)
            requires
                v > 0,
        ;
    }
}

proof fn lemma_tallest_is_tallest(values: Seq<u32>, i: int, k: int)
    requires
        0 <= i < k <= values.len(),
    ensures
        values[i] <= tallest_of(values, k),
    decreases k,
{
    if i < k - 1 {
        lemma_tallest_is_tallest(values, i, k - 1);
    }
}

/// The y of sample `v` in a step line.
pub open spec fn step_y(r: Rect, v: int, full: int) -> int {
    let span = if r.h > 5 { r.h - 4 } else { 1 };
    r.bottom_edge() - 2 - scaled(v, span, full)
}

/// The width of a step.
pub open spec fn step_w(r: Rect, n: int) -> int {
    if r.w as int / n > 1 {
        r.w as int / n
    } else {
        1
    }
}

/// What step `i` draws: the vertical from the step before it, and its own segment.
pub open spec fn step_ops(r: Rect, values: Seq<u32>, i: int) -> Seq<Op<Seq<char>>> {
    let n = values.len() as int;
    let full = scale_of(values);
    let seg = step_w(r, n);
    let x = r.x + i * seg;
    let y = step_y(r, values[i] as int, full);
    let end = if i + 1 == n { r.right_edge() } else { x + seg };
    let py = step_y(r, values[i - 1] as int, full);
    (if i > 0 && py != y {
        seq![
            crate::draw::fill(
                x,
                if py < y { py } else { y },
                2,
                (if py < y { y - py } else { py - y }) + 2,
                Ink::Black,
            ),
        ]
    } else {
        Seq::empty()
    }) + seq![crate::draw::fill(x, y, if end - x > 2 { end - x } else { 2 }, 2, Ink::Black)]
}

/// What the first `k` steps draw.
pub open spec fn steps_to(r: Rect, values: Seq<u32>, k: int) -> Seq<Op<Seq<char>>>
    decreases k,
{
    if k <= 0 {
        Seq::empty()
    } else {
        steps_to(r, values, k - 1) + step_ops(r, values, k - 1)
    }
}

/// A stepped line: one horizontal 2 px segment per sample, joined by verticals, over a 2 px baseline.
/// The samples are scaled to the tallest.
pub fn step_line(f: &mut Frame, r: Rect, values: &Vec<u32>)
    requires
        r.sane(),
        r.w <= 0x1_0000,
        r.h <= 0x1_0000,
        values@.len() <= 0x1000,
    ensures
        final(f).sheet == old(f).sheet,
        final(f)@ == old(f)@ + (seq![
            crate::draw::fill(r.x as int, r.bottom_edge() - 2, r.w as int, 2, Ink::Black),
        ] + steps_to(r, values@, values@.len() as int)),
{
    let n: usize = values.len();
    let base: i32 = r.bottom() - 2;
    f.fill_rect(Rect::new(r.x, base, r.w, 2), Ink::Black);
    let ghost head = f@;
    assert(head + steps_to(r, values@, 0) =~= head);
    if n > 0 {
        let (_, best) = tallest(values);
        let full: u32 = if best > 1 { best } else { 1 };
        let span: u32 = if r.h > 5 { r.h - 4 } else { 1 };
        proof {
            let (a, b) = (r.w as int, n as int);
            assert(0 <= a / b <= a) by (nonlinear_arith)
                requires
                    a >= 0,
                    b > 0,
            ;
        }
        let q: i32 = r.w as i32 / n as i32;
        let seg: i32 = if q > 1 { q } else { 1 };
        let mut prev: i32 = base;
        let mut i: usize = 0;
        while i < n
            invariant
                i <= n == values@.len(),
                n <= 0x1000,
                r.sane(),
                r.w <= 0x1_0000,
                r.h <= 0x1_0000,
                base == r.bottom_edge() - 2,
                full == scale_of(values@),
                full > 0,
                forall|j: int| 0 <= j < values@.len() ==> #[trigger] values@[j] <= full,
                span == if r.h > 5 { r.h - 4 } else { 1 },
                seg == step_w(r, n as int),
                1 <= seg <= 0x1_0000,
                i > 0 ==> prev == step_y(r, values@[i - 1] as int, full as int),
                base - 0x1_0000 <= prev <= base,
                f.sheet == old(f).sheet,
                f@ == head + steps_to(r, values@, i as int),
            decreases n - i,
        {
            proof {
                assert(values@[i as int] <= full);
                lemma_scaled_fits(values@[i as int] as int, span as int, full as int);
                assert(0 <= i * seg <= 0x1000 * 0x1_0000) by (nonlinear_arith)
                    requires
                        0 <= i <= 0x1000,
                        0 <= seg <= 0x1_0000,
                ;
            }
            let x: i32 = r.x + i as i32 * seg;
            let y: i32 = base - scale(values[i], span, full);
            if i > 0 && prev != y {
                let top: i32 = if prev < y { prev } else { y };
                let h: i32 = if prev < y { y - prev } else { prev - y };
                f.fill_rect(Rect::new(x, top, 2, h as u32 + 2), Ink::Black);
            }
            let end: i32 = if i + 1 == n { r.right() } else { x + seg };
            let len: i32 = if end - x > 2 { end - x } else { 2 };
            f.fill_rect(Rect::new(x, y, len as u32, 2), Ink::Black);
            assert(f@ =~= head + steps_to(r, values@, i + 1));
            prev = y;
            i += 1;
        }
    }
    assert(f@ =~= old(f)@ + (seq![
        crate::draw::fill(r.x as int, r.bottom_edge() - 2, r.w as int, 2, Ink::Black),
    ] + steps_to(r, values@, values@.len() as int)));
}

/// The tallest of the values is one of them and none is taller; where it is found is the first place that has it.
pub proof fn law_tallest_is_the_maximum(values: Seq<u32>, i: int)
    requires
        0 <= i < values.len(),
    ensures
        ({
            let n = values.len() as int;
            &&& values[i] <= tallest_of(values, n)
            &&& 0 <= tallest_at(values, n) < n
            &&& values[tallest_at(values, n)] == tallest_of(values, n)
            &&& i < tallest_at(values, n) ==> values[i] < tallest_of(values, n)
        }),
{
    lemma_tallest(values, i, values.len() as int);
}

proof fn lemma_tallest(values: Seq<u32>, i: int, k: int)
    requires
        0 <= i < k <= values.len(),
    ensures
        values[i] <= tallest_of(values, k),
        0 <= tallest_at(values, k) < k,
        values[tallest_at(values, k)] == tallest_of(values, k),
        i < tallest_at(values, k) ==> values[i] < tallest_of(values, k),
    decreases k,
{
    if k > 1 {
        if i < k - 1 {
            lemma_tallest(values, i, k - 1);
        } else {
            lemma_tallest(values, 0, k - 1);
        }
    } else {
        reveal_with_fuel(tallest_of, 2);
        reveal_with_fuel(tallest_at, 2);
    }
}

/// A larger value is drawn no shorter.
pub proof fn law_bars_grow_with_their_values(v: int, w: int, height: int, scale: int)
    requires
        0 <= v <= w,
        0 <= height,
        0 < scale,
    ensures
        scaled(v, height, scale) <= scaled(w, height, scale),
        scaled(0, height, scale) == 0,
{
    assert(v * height / scale <= w * height / scale) by (nonlinear_arith)
        requires
            0 <= v <= w,
            0 <= height,
            0 < scale,
    ;
    assert(0 * height / scale == 0) by (nonlinear_arith)
        requires
            0 < scale,
    ;
}

/// A chart says where its values begin, what is in their middle and where they end, and how much the tallest is.
pub proof fn law_charts_are_labelled(
    s: Sheet,
    r: Rect,
    values: Seq<u32>,
    labels: (Seq<char>, Seq<char>, Seq<char>),
    unit: Seq<char>,
    tw: int,
    hatched: Option<Seq<u32>>,
)
    ensures
        crate::draw::shows(ink_line_ops(s, r, values, labels, unit, tw, hatched), labels.0),
        crate::draw::shows(ink_line_ops(s, r, values, labels, unit, tw, hatched), labels.1),
        crate::draw::shows(ink_line_ops(s, r, values, labels, unit, tw, hatched), labels.2),
        tallest_of(values, values.len() as int) > 0 ==> crate::draw::shows(
            ink_line_ops(s, r, values, labels, unit, tw, hatched),
            text::decimal(tallest_of(values, values.len() as int) as nat) + unit,
        ),
{
    broadcast use {
        crate::draw::lemma_shows_in_two,
        crate::draw::lemma_shows_pushed,
        crate::draw::lemma_shows_between_two,
        crate::draw::lemma_shows_between_pushed,
        crate::draw::lemma_written_in_two,
        crate::draw::lemma_written_pushed,
        crate::draw::lemma_draws_in_two,
        crate::draw::lemma_draws_pushed,
    };
}

/// A larger value of a stepped line stands higher, the largest at the top of its box and nothing at its foot.
pub proof fn law_steps_rise_with_their_values(r: Rect, v: int, w: int, full: int)
    requires
        0 <= v <= w <= full,
        0 < full,
        r.h > 5,
    ensures
        step_y(r, w, full) <= step_y(r, v, full),
        step_y(r, 0, full) == r.bottom_edge() - 2,
        step_y(r, full, full) == r.y + 2,
{
    law_bars_grow_with_their_values(v, w, r.h - 4, full);
    assert(full * (r.h - 4) / full == r.h - 4) by (nonlinear_arith)
        requires
            0 < full,
    ;
}

/// The bars stand side by side, two dots apart, and fit the width of the chart where there is room for them.
pub proof fn law_bars_stand_side_by_side(w: int, n: int)
    requires
        0 < n <= 0x1000,
        0 <= w <= 0x1_0000,
    ensures
        bar_w(w, n) >= 4,
        w >= 4 * n + 2 * (n - 1) ==> n * bar_w(w, n) + 2 * (n - 1) <= w,
        w >= 4 * n + 2 * (n - 1) ==> w < n * (bar_w(w, n) + 1) + 2 * (n - 1),
{
    let room = w - 2 * (n - 1);
    if room >= 4 * n {
        assert(n * (room / n) <= room < n * (room / n + 1) && room / n >= 4) by (nonlinear_arith)
            requires
                room >= 4 * n,
                n > 0,
        ;
    }
}

/// What is compared stands hatched on top of its bar, up to its own height, and only where it is taller.
pub proof fn law_hatching_stands_on_the_bar(chart: Rect, bw: int, full: int, i: int, v: int, over: int)
    requires
        0 < full,
        0 <= v,
        0 <= over,
    ensures
        ({
            let ops = bar_ops(chart, bw, full, i, v, Some(over));
            let h = scaled(v, chart.h - 2, full);
            let sh = scaled(over, chart.h - 2, full);
            let x = chart.x + i * (bw + 2);
            let base = chart.bottom_edge() - 2;
            &&& h > 0 ==> ops[0] == crate::draw::fill(x, base - h, bw, h, Ink::Black)
            &&& sh > h ==> ops[ops.len() - 1] == Op::<Seq<char>>::Pattern(crate::draw::rect(x, base - sh, bw, sh - h), Pattern::Hatch(3))
            &&& sh <= h ==> ops.len() <= 1
            &&& h <= 0 && sh <= h ==> ops.len() == 0
            &&& bar_ops(chart, bw, full, i, v, None).len() <= 1
        }),
{
}

/// A value without one to compare it with has no hatching.
pub proof fn law_hatching_goes_with_its_value(hatched: Seq<u32>, i: int)
    requires
        0 <= i,
    ensures
        i < hatched.len() ==> over_at(Some(hatched), i) == Some(hatched[i] as int),
        i >= hatched.len() ==> over_at(Some(hatched), i) is None,
        over_at(None, i) is None,
{
}

} // verus!
