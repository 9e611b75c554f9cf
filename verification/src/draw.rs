//! Drawing: the frame, and what is drawn on it.
//!
//! A [`Frame`] records what a screen draws, in order; the platform paints the record. What a
//! widget draws is then a sequence that its contract can state.
use vstd::prelude::*;

use crate::text;

verus! {

/// A rectangle on the frame.
#[derive(Clone, Copy, Debug, PartialEq, Eq, Structural)]
pub struct Rect {
    /// Left edge.
    pub x: i32,
    /// Top edge.
    pub y: i32,
    /// Width.
    pub w: u32,
    /// Height.
    pub h: u32,
}

impl Rect {
    /// The rectangle at `(x, y)` of size `w × h`.
    pub fn new(x: i32, y: i32, w: u32, h: u32) -> (r: Rect)
        ensures
            r == (Rect { x, y, w, h }),
    {
        Rect { x, y, w, h }
    }

    /// Where the rectangle ends on the right: the first column outside it.
    pub open spec fn right_edge(self) -> int {
        self.x + self.w
    }

    /// Where the rectangle ends below: the first row outside it.
    pub open spec fn bottom_edge(self) -> int {
        self.y + self.h
    }

    /// Whether coordinates and sizes stay far from what a number can hold.
    pub open spec fn sane(self) -> bool {
        sane(self.x as int) && sane(self.y as int) && self.w <= FAR && self.h <= FAR
    }

    /// Where the rectangle ends on the right.
    pub fn right(&self) -> (r: i32)
        requires
            self.sane(),
        ensures
            r == self.right_edge(),
    {
        self.x + self.w as i32
    }

    /// Where the rectangle ends below.
    pub fn bottom(&self) -> (r: i32)
        requires
            self.sane(),
        ensures
            r == self.bottom_edge(),
    {
        self.y + self.h as i32
    }
}

/// How far from the origin anything is drawn: coordinates up to here can be added and halved
/// without leaving the range of an `i32`.
pub const FAR: u32 = 0x100_0000;

/// Whether a coordinate stays within [`FAR`] of the origin.
pub open spec fn sane(v: int) -> bool {
    -FAR <= v <= FAR
}

/// The rectangle with these numbers.
pub open spec fn rect(x: int, y: int, w: int, h: int) -> Rect {
    Rect { x: x as i32, y: y as i32, w: w as u32, h: h as u32 }
}

/// The two colours.
#[derive(Clone, Copy, Debug, PartialEq, Eq, Structural)]
pub enum Ink {
    /// Paper.
    White,
    /// Ink.
    Black,
}

/// A fill pattern.
#[derive(Clone, Copy, Debug, PartialEq, Eq, Structural)]
pub enum Pattern {
    /// Diagonal lines this far apart.
    Hatch(u32),
    /// A quarter of the dots.
    Sparse,
    /// Half of the dots.
    Dots50,
}

/// A screen laid over what is drawn already.
#[derive(Clone, Copy, Debug, PartialEq, Eq, Structural)]
pub enum Shade {
    /// Over a disabled row.
    Disabled,
    /// Over the page beneath an overlay.
    Screened,
}

/// The faces of the interface.
#[derive(Clone, Copy, Debug, PartialEq, Eq, Structural)]
pub enum Face {
    /// Serif titles.
    Title,
    /// Mono: values, the rail.
    Mono,
    /// 18 px labels.
    Label,
    /// List titles.
    ListTitle,
    /// Body text.
    Body,
    /// Poster numerals.
    Poster,
    /// The largest numerals.
    Hero,
}

/// The measures of a face.
#[derive(Clone, Copy, Debug, PartialEq, Eq, Structural)]
pub struct Metrics {
    /// Above the baseline.
    pub ascent: i32,
    /// Below the baseline.
    pub below: i32,
    /// From line to line.
    pub line_h: i32,
}

impl Metrics {
    /// Whether the measures are those of a face that can be drawn.
    pub open spec fn wf(self) -> bool {
        0 <= self.ascent <= 0x1000 && 0 <= self.below <= 0x1000 && 0 < self.line_h <= 0x1000
    }
}

/// The measures of the interface's faces.
#[derive(Clone, Copy, Debug, PartialEq, Eq, Structural)]
pub struct Faces {
    /// Serif titles.
    pub title: Metrics,
    /// Mono.
    pub mono: Metrics,
    /// Labels.
    pub label: Metrics,
    /// List titles.
    pub list_title: Metrics,
    /// Body text.
    pub body: Metrics,
    /// Poster numerals.
    pub poster: Metrics,
    /// The largest numerals.
    pub hero: Metrics,
}

impl Faces {
    /// Whether every face can be drawn.
    pub open spec fn wf(self) -> bool {
        self.title.wf() && self.mono.wf() && self.label.wf() && self.list_title.wf() && self.body.wf() && self.poster.wf()
            && self.hero.wf()
    }
}

/// The measures of the interface's theme.
#[derive(Clone, Copy, Debug, PartialEq, Eq, Structural)]
pub struct Theme {
    /// Height of the rail over the bottom keys.
    pub rail_h: i32,
    /// Space left and right in a row.
    pub row_pad: i32,
    /// Height of a row.
    pub row_h: i32,
    /// Space around a card.
    pub margin: i32,
    /// Width of the Spine.
    pub spine_w: u32,
}

/// What a screen draws on: the panel's size, and the measures of what goes on it.
#[derive(Clone, Copy, Debug, PartialEq, Eq, Structural)]
pub struct Sheet {
    /// Width.
    pub w: u32,
    /// Height.
    pub h: u32,
    /// Faces.
    pub faces: Faces,
    /// Theme.
    pub theme: Theme,
}

/// Thickness of a heavy rule.
pub const RULE_HEAVY: u32 = 4;

/// Thickness of a rule.
pub const RULE: u32 = 2;

/// Content x inset used by titled screens.
pub const INSET: i32 = 32;

impl Sheet {
    /// Whether the panel has room for its rail and margins.
    pub open spec fn wf(self) -> bool {
        &&& self.faces.wf()
        &&& RULE_HEAVY < self.theme.rail_h <= 0x1000
        &&& 0 <= self.theme.row_pad <= 0x1000
        &&& 0 < self.theme.row_h <= 0x1000
        &&& 0 <= self.theme.margin <= 0x1000
        &&& self.theme.spine_w <= 0x1000
        &&& 2 * INSET <= self.w <= 0x1_0000
        &&& 2 * self.theme.row_pad <= self.w
        &&& 2 * self.theme.margin + 64 <= self.w
        &&& self.theme.rail_h <= self.h <= 0x1_0000
    }
}

/// How a text stands to its x.
#[derive(Clone, Copy, Debug, PartialEq, Eq, Structural)]
pub enum Place {
    /// It starts there.
    Start,
    /// It is centred on it.
    Centre,
    /// It ends there.
    End,
}

/// Where the baseline of a text is.
#[derive(Clone, Copy, Debug, PartialEq, Eq, Structural)]
pub enum Base {
    /// At this y.
    At(i32),
    /// Where it centres the face in the band of this top and height.
    Mid(i32, i32),
}

/// A text drawn.
#[derive(Clone, Debug, PartialEq, Eq)]
pub struct TextOp<T> {
    /// Face.
    pub face: Face,
    /// Where it stands.
    pub x: i32,
    /// How it stands to `x`.
    pub place: Place,
    /// Baseline.
    pub base: Base,
    /// The text.
    pub text: T,
    /// Shortened with an ellipsis to this width, if given.
    pub fit: Option<i32>,
    /// White on black.
    pub inverted: bool,
    /// In spaced small capitals.
    pub caps: bool,
}

/// An icon.
#[derive(Clone, Copy, Debug, PartialEq, Eq, Structural)]
pub enum Icon {
    /// A chevron to the right.
    ChevronRight,
    /// The battery at this percentage.
    Battery(u8),
    /// The charging mark.
    Charging,
    /// The Wi-Fi mark.
    Wifi,
}

/// One thing drawn.
#[derive(Clone, Debug, PartialEq, Eq)]
pub enum Op<T> {
    /// A filled rectangle.
    Fill(Rect, Ink),
    /// A frame of this thickness inside a rectangle.
    Stroke(Rect, u32, Ink),
    /// A pattern in a rectangle.
    Pattern(Rect, Pattern),
    /// A screen over a rectangle.
    Shade(Rect, Shade),
    /// A text.
    Text(TextOp<T>),
    /// A text reading upwards.
    Upward(TextOp<T>),
    /// One dot.
    Dot(i32, i32, Ink),
    /// The bitmap handed in, inked over what is there.
    Blit(i32, i32),
    /// An icon.
    Icon(Icon, i32, i32, Ink),
    /// The code handed in, at this scale.
    Code(i32, i32, i32),
    /// A specimen of the reading text.
    Specimen(Rect),
    /// The Spine of a sample book: 412 pages, chapters at 40, 90, 160, 250 and 330, open at 122.
    SampleSpine(Rect),
}

impl View for Op<String> {
    type V = Op<Seq<char>>;

    open spec fn view(&self) -> Op<Seq<char>> {
        match *self {
            Op::Fill(r, i) => Op::Fill(r, i),
            Op::Stroke(r, t, i) => Op::Stroke(r, t, i),
            Op::Pattern(r, p) => Op::Pattern(r, p),
            Op::Shade(r, s) => Op::Shade(r, s),
            Op::Text(t) => Op::Text(text_view(t)),
            Op::Upward(t) => Op::Upward(text_view(t)),
            Op::Dot(x, y, i) => Op::Dot(x, y, i),
            Op::Blit(x, y) => Op::Blit(x, y),
            Op::Icon(c, x, y, i) => Op::Icon(c, x, y, i),
            Op::Code(x, y, s) => Op::Code(x, y, s),
            Op::Specimen(r) => Op::Specimen(r),
            Op::SampleSpine(r) => Op::SampleSpine(r),
        }
    }
}

/// A text op with its text as a sequence of characters.
pub open spec fn text_view(t: TextOp<String>) -> TextOp<Seq<char>> {
    TextOp {
        face: t.face,
        x: t.x,
        place: t.place,
        base: t.base,
        text: t.text@,
        fit: t.fit,
        inverted: t.inverted,
        caps: t.caps,
    }
}

/// What is drawn, as it is seen.
pub open spec fn op_views(ops: Seq<Op<String>>) -> Seq<Op<Seq<char>>> {
    ops.map_values(|o: Op<String>| o@)
}

/// A frame and what was drawn on it, in order.
#[derive(Clone, Debug, PartialEq, Eq)]
pub struct Frame {
    /// What is drawn on.
    pub sheet: Sheet,
    /// What was drawn.
    pub ops: Vec<Op<String>>,
}

impl View for Frame {
    type V = Seq<Op<Seq<char>>>;

    open spec fn view(&self) -> Seq<Op<Seq<char>>> {
        op_views(self.ops@)
    }
}

/// A text at `x`, its baseline at `y`.
pub open spec fn plain(face: Face, x: int, base: Base, t: Seq<char>, fit: Option<int>, inverted: bool) -> Op<Seq<char>> {
    Op::Text(
        TextOp {
            face,
            x: x as i32,
            place: Place::Start,
            base,
            text: t,
            fit: match fit {
                Some(f) => Some(f as i32),
                None => None,
            },
            inverted,
            caps: false,
        },
    )
}

/// A text centred on `x`.
pub open spec fn centred(face: Face, x: int, base: Base, t: Seq<char>, fit: Option<int>, inverted: bool) -> Op<Seq<char>> {
    match plain(face, x, base, t, fit, inverted) {
        Op::Text(op) => Op::Text(TextOp { place: Place::Centre, ..op }),
        o => o,
    }
}

/// A text that ends at `x`.
pub open spec fn ended(face: Face, x: int, base: Base, t: Seq<char>) -> Op<Seq<char>> {
    match plain(face, x, base, t, None, false) {
        Op::Text(op) => Op::Text(TextOp { place: Place::End, ..op }),
        o => o,
    }
}

/// A label in small capitals.
pub open spec fn caps(x: int, y: int, t: Seq<char>, fit: Option<int>, inverted: bool) -> Op<Seq<char>> {
    match plain(Face::Label, x, at(y), t, fit, inverted) {
        Op::Text(op) => Op::Text(TextOp { caps: true, ..op }),
        o => o,
    }
}

/// A baseline at `y`.
pub open spec fn at(y: int) -> Base {
    Base::At(y as i32)
}

/// A baseline that centres the face in a band.
pub open spec fn mid(top: int, h: int) -> Base {
    Base::Mid(top as i32, h as i32)
}

/// A filled rectangle.
pub open spec fn fill(x: int, y: int, w: int, h: int, ink: Ink) -> Op<Seq<char>> {
    Op::Fill(rect(x, y, w, h), ink)
}

impl Frame {
    /// An empty frame.
    pub fn new(sheet: Sheet) -> (f: Frame)
        ensures
            f.sheet == sheet,
            f@ == Seq::<Op<Seq<char>>>::empty(),
    {
        let f = Frame { sheet, ops: Vec::new() };
        assert(f@ =~= Seq::<Op<Seq<char>>>::empty());
        f
    }

    /// Width.
    pub fn width(&self) -> (r: u32)
        ensures
            r == self.sheet.w,
    {
        self.sheet.w
    }

    /// Height.
    pub fn height(&self) -> (r: u32)
        ensures
            r == self.sheet.h,
    {
        self.sheet.h
    }

    /// Draw one thing.
    pub fn draw(&mut self, op: Op<String>)
        ensures
            final(self).sheet == old(self).sheet,
            final(self)@ == old(self)@.push(op@),
    {
        self.ops.push(op);
        assert(self@ =~= old(self)@.push(op@));
    }

    /// Fill a rectangle.
    pub fn fill_rect(&mut self, r: Rect, ink: Ink)
        ensures
            final(self).sheet == old(self).sheet,
            final(self)@ == old(self)@.push(Op::Fill(r, ink)),
    {
        self.draw(Op::Fill(r, ink));
    }

    /// Frame a rectangle.
    pub fn stroke_rect(&mut self, r: Rect, thickness: u32, ink: Ink)
        ensures
            final(self).sheet == old(self).sheet,
            final(self)@ == old(self)@.push(Op::Stroke(r, thickness, ink)),
    {
        self.draw(Op::Stroke(r, thickness, ink));
    }

    /// Fill a rectangle with a pattern.
    pub fn pattern_rect(&mut self, r: Rect, p: Pattern)
        ensures
            final(self).sheet == old(self).sheet,
            final(self)@ == old(self)@.push(Op::Pattern(r, p)),
    {
        self.draw(Op::Pattern(r, p));
    }

    /// Lay a screen over a rectangle.
    pub fn screen_rect(&mut self, r: Rect, s: Shade)
        ensures
            final(self).sheet == old(self).sheet,
            final(self)@ == old(self)@.push(Op::Shade(r, s)),
    {
        self.draw(Op::Shade(r, s));
    }

    /// Draw a text that starts at `x`.
    pub fn text(&mut self, face: Face, x: i32, base: Base, t: &str, fit: Option<i32>, inverted: bool)
        ensures
            final(self).sheet == old(self).sheet,
            final(self)@ == old(self)@.push(plain(face, x as int, base, t@, widen(fit), inverted)),
    {
        self.draw(
            Op::Text(
                TextOp { face, x, place: Place::Start, base, text: text::owned(t), fit, inverted, caps: false },
            ),
        );
    }

    /// Draw a text centred on `x`.
    pub fn text_centred(&mut self, face: Face, x: i32, base: Base, t: &str, fit: Option<i32>, inverted: bool)
        ensures
            final(self).sheet == old(self).sheet,
            final(self)@ == old(self)@.push(centred(face, x as int, base, t@, widen(fit), inverted)),
    {
        self.draw(
            Op::Text(
                TextOp { face, x, place: Place::Centre, base, text: text::owned(t), fit, inverted, caps: false },
            ),
        );
    }

    /// Draw a text that ends at `x`.
    pub fn text_ended(&mut self, face: Face, x: i32, base: Base, t: &str)
        ensures
            final(self).sheet == old(self).sheet,
            final(self)@ == old(self)@.push(ended(face, x as int, base, t@)),
    {
        self.draw(
            Op::Text(
                TextOp { face, x, place: Place::End, base, text: text::owned(t), fit: None, inverted: false, caps: false },
            ),
        );
    }

    /// Draw a label in small capitals.
    pub fn label(&mut self, x: i32, y: i32, t: &str, fit: Option<i32>, inverted: bool)
        ensures
            final(self).sheet == old(self).sheet,
            final(self)@ == old(self)@.push(caps(x as int, y as int, t@, widen(fit), inverted)),
    {
        self.draw(
            Op::Text(
                TextOp {
                    face: Face::Label,
                    x,
                    place: Place::Start,
                    base: Base::At(y),
                    text: text::owned(t),
                    fit,
                    inverted,
                    caps: true,
                },
            ),
        );
    }
}

/// A width as a plain number.
pub open spec fn widen(fit: Option<i32>) -> Option<int> {
    match fit {
        Some(f) => Some(f as int),
        None => None,
    }
}

/// Whether an op writes this text.
pub open spec fn says(op: Op<Seq<char>>, t: Seq<char>) -> bool {
    op matches Op::Text(x) && x.text == t
}

/// Whether this text is written somewhere.
pub open spec fn shows(ops: Seq<Op<Seq<char>>>, t: Seq<char>) -> bool {
    exists|i: int| 0 <= i < ops.len() && says(#[trigger] ops[i], t)
}

/// Whether an op writes this text from a place between two others.
pub open spec fn says_between(op: Op<Seq<char>>, t: Seq<char>, left: int, right: int) -> bool {
    op matches Op::Text(x) && x.text == t && left <= x.x && x.x <= right
}

/// Whether this text is written somewhere between the two places.
pub open spec fn shows_between(ops: Seq<Op<Seq<char>>>, t: Seq<char>, left: int, right: int) -> bool {
    exists|i: int| 0 <= i < ops.len() && says_between(#[trigger] ops[i], t, left, right)
}

/// Whether every text is written in white, or every one in black.
pub open spec fn written(ops: Seq<Op<Seq<char>>>, inverted: bool) -> bool {
    forall|i: int| 0 <= i < ops.len() ==> ((#[trigger] ops[i]) matches Op::Text(x) ==> x.inverted == inverted)
}

/// Whether this very op is drawn.
pub open spec fn draws(ops: Seq<Op<Seq<char>>>, op: Op<Seq<char>>) -> bool {
    exists|i: int| 0 <= i < ops.len() && #[trigger] ops[i] == op
}

pub broadcast proof fn lemma_shows_in_two(a: Seq<Op<Seq<char>>>, b: Seq<Op<Seq<char>>>, t: Seq<char>)
    ensures
        #[trigger] shows(a + b, t) <==> shows(a, t) || shows(b, t),
{
    if shows(a, t) {
        let i = choose|i: int| 0 <= i < a.len() && says(#[trigger] a[i], t);
        assert((a + b)[i] == a[i]);
    }
    if shows(b, t) {
        let i = choose|i: int| 0 <= i < b.len() && says(#[trigger] b[i], t);
        assert((a + b)[a.len() + i] == b[i]);
    }
    if shows(a + b, t) {
        let i = choose|i: int| 0 <= i < (a + b).len() && says(#[trigger] (a + b)[i], t);
        if i < a.len() {
            assert(says(a[i], t));
        } else {
            assert(says(b[i - a.len()], t));
        }
    }
}

pub broadcast proof fn lemma_shows_pushed(a: Seq<Op<Seq<char>>>, op: Op<Seq<char>>, t: Seq<char>)
    ensures
        #[trigger] shows(a.push(op), t) <==> shows(a, t) || says(op, t),
{
    let s = a.push(op);
    if shows(a, t) {
        let i = choose|i: int| 0 <= i < a.len() && says(#[trigger] a[i], t);
        assert(s[i] == a[i]);
    }
    if says(op, t) {
        assert(says(s[a.len() as int], t));
    }
    if shows(s, t) {
        let i = choose|i: int| 0 <= i < s.len() && says(#[trigger] s[i], t);
        if i < a.len() {
            assert(says(a[i], t));
        }
    }
}

pub broadcast proof fn lemma_shows_between_two(a: Seq<Op<Seq<char>>>, b: Seq<Op<Seq<char>>>, t: Seq<char>, left: int, right: int)
    ensures
        #[trigger] shows_between(a + b, t, left, right) <==> shows_between(a, t, left, right) || shows_between(b, t, left, right),
{
    if shows_between(a, t, left, right) {
        let i = choose|i: int| 0 <= i < a.len() && says_between(#[trigger] a[i], t, left, right);
        assert((a + b)[i] == a[i]);
    }
    if shows_between(b, t, left, right) {
        let i = choose|i: int| 0 <= i < b.len() && says_between(#[trigger] b[i], t, left, right);
        assert((a + b)[a.len() + i] == b[i]);
    }
    if shows_between(a + b, t, left, right) {
        let i = choose|i: int| 0 <= i < (a + b).len() && says_between(#[trigger] (a + b)[i], t, left, right);
        if i < a.len() {
            assert(says_between(a[i], t, left, right));
        } else {
            assert(says_between(b[i - a.len()], t, left, right));
        }
    }
}

pub broadcast proof fn lemma_shows_between_pushed(a: Seq<Op<Seq<char>>>, op: Op<Seq<char>>, t: Seq<char>, left: int, right: int)
    ensures
        #[trigger] shows_between(a.push(op), t, left, right) <==> shows_between(a, t, left, right) || says_between(op, t, left, right),
{
    let s = a.push(op);
    if shows_between(a, t, left, right) {
        let i = choose|i: int| 0 <= i < a.len() && says_between(#[trigger] a[i], t, left, right);
        assert(s[i] == a[i]);
    }
    if says_between(op, t, left, right) {
        assert(says_between(s[a.len() as int], t, left, right));
    }
    if shows_between(s, t, left, right) {
        let i = choose|i: int| 0 <= i < s.len() && says_between(#[trigger] s[i], t, left, right);
        if i < a.len() {
            assert(says_between(a[i], t, left, right));
        }
    }
}

pub broadcast proof fn lemma_written_in_two(a: Seq<Op<Seq<char>>>, b: Seq<Op<Seq<char>>>, inverted: bool)
    ensures
        #[trigger] written(a + b, inverted) <==> written(a, inverted) && written(b, inverted),
{
    if written(a + b, inverted) {
        assert forall|i: int| 0 <= i < a.len() implies ((#[trigger] a[i]) matches Op::Text(x) ==> x.inverted == inverted) by {
            assert((a + b)[i] == a[i]);
        }
        assert forall|i: int| 0 <= i < b.len() implies ((#[trigger] b[i]) matches Op::Text(x) ==> x.inverted == inverted) by {
            assert((a + b)[a.len() + i] == b[i]);
        }
    }
}

pub broadcast proof fn lemma_written_pushed(a: Seq<Op<Seq<char>>>, op: Op<Seq<char>>, inverted: bool)
    ensures
        #[trigger] written(a.push(op), inverted) <==> written(a, inverted) && (op matches Op::Text(x) ==> x.inverted == inverted),
{
    let s = a.push(op);
    if written(s, inverted) {
        assert(s[a.len() as int] == op);
        assert forall|i: int| 0 <= i < a.len() implies ((#[trigger] a[i]) matches Op::Text(x) ==> x.inverted == inverted) by {
            assert(s[i] == a[i]);
        }
    }
}

pub broadcast proof fn lemma_draws_in_two(a: Seq<Op<Seq<char>>>, b: Seq<Op<Seq<char>>>, op: Op<Seq<char>>)
    ensures
        #[trigger] draws(a + b, op) <==> draws(a, op) || draws(b, op),
{
    if draws(a, op) {
        let i = choose|i: int| 0 <= i < a.len() && #[trigger] a[i] == op;
        assert((a + b)[i] == op);
    }
    if draws(b, op) {
        let i = choose|i: int| 0 <= i < b.len() && #[trigger] b[i] == op;
        assert((a + b)[a.len() + i] == op);
    }
    if draws(a + b, op) {
        let i = choose|i: int| 0 <= i < (a + b).len() && #[trigger] (a + b)[i] == op;
        if i < a.len() {
            assert(a[i] == op);
        } else {
            assert(b[i - a.len()] == op);
        }
    }
}

pub broadcast proof fn lemma_draws_pushed(a: Seq<Op<Seq<char>>>, last: Op<Seq<char>>, op: Op<Seq<char>>)
    ensures
        #[trigger] draws(a.push(last), op) <==> draws(a, op) || last == op,
{
    let s = a.push(last);
    if draws(a, op) {
        let i = choose|i: int| 0 <= i < a.len() && #[trigger] a[i] == op;
        assert(s[i] == op);
    }
    if last == op {
        assert(s[a.len() as int] == op);
    }
    if draws(s, op) {
        let i = choose|i: int| 0 <= i < s.len() && #[trigger] s[i] == op;
        if i < a.len() {
            assert(a[i] == op);
        }
    }
}

} // verus!
