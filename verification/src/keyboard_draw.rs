//! What the keyboard draws.
use vstd::prelude::*;

use crate::draw::{Base, Face, Frame, Ink, Op, Rect, Sheet, INSET};
use crate::input::{Key, KeyEvent, KeyKind, Refresh};
use crate::keyboard::{t9_set, KeyboardScreen, KeyboardView, Layer, Outcome};
use crate::text;
use crate::widgets;
use crate::widgets::{halve, CONTENT_TOP};

verus! {

/// Width of a key.
pub const KEY_W: i32 = 48;

/// Height of a key.
pub const KEY_H: i32 = 56;

/// Width of a T9 key.
pub const T9_W: i32 = 120;

/// Height of a T9 key.
pub const T9_H: i32 = 64;

/// What a key cap draws: its frame, black under it when focused, and its label.
pub open spec fn cap_ops(r: Rect, focused: bool, frame_first: bool, thickness: u32, face: Face, label: Seq<char>) -> Seq<Op<Seq<char>>> {
    let frame = seq![Op::Stroke(r, thickness, Ink::Black)];
    let black = if focused { seq![Op::Fill(r, Ink::Black)] } else { Seq::empty() };
    (if frame_first { frame + black } else { black + frame }) + seq![
        crate::draw::centred(
            face,
            r.x + r.w as int / 2,
            crate::draw::mid(r.y as int, r.h as int),
            label,
            None,
            focused,
        ),
    ]
}

fn cap(f: &mut Frame, r: Rect, focused: bool, frame_first: bool, thickness: u32, face: Face, label: &str)
    requires
        r.sane(),
    ensures
        final(f).sheet == old(f).sheet,
        final(f)@ == old(f)@ + cap_ops(r, focused, frame_first, thickness, face, label@),
{
    if frame_first {
        f.stroke_rect(r, thickness, Ink::Black);
    }
    if focused {
        f.fill_rect(r, Ink::Black);
    }
    if !frame_first {
        f.stroke_rect(r, thickness, Ink::Black);
    }
    f.text_centred(face, r.x + r.w as i32 / 2, Base::Mid(r.y, r.h as i32), label, None, focused);
    assert(f@ =~= old(f)@ + cap_ops(r, focused, frame_first, thickness, face, label@));
}

/// The label of T9 key `i`.
pub open spec fn t9_label(layer: Layer, i: int) -> Seq<char> {
    if i == 9 {
        if layer == Layer::Upper {
            "abc"@
        } else {
            "ABC"@
        }
    } else if i == 10 {
        "0 ␣"@
    } else if i == 11 {
        "⌫"@
    } else if layer == Layer::Upper && 0 < i < 9 {
        text::upper(crate::keyboard::t9_letters(i))
    } else {
        crate::keyboard::t9_letters(i)
    }
}

fn t9_label_text(layer: Layer, i: usize) -> (r: String)
    requires
        i < 12,
    ensures
        r@ == t9_label(layer, i as int),
{
    if i == 9 {
        text::owned(if layer == Layer::Upper { "abc" } else { "ABC" })
    } else if i == 10 {
        text::owned("0 ␣")
    } else if i == 11 {
        text::owned("⌫")
    } else if layer == Layer::Upper && 0 < i && i < 9 {
        text::to_uppercase(t9_set(i))
    } else {
        text::owned(t9_set(i))
    }
}

/// Where T9 key `i` stands.
pub open spec fn t9_rect(w: int, top: int, i: int) -> Rect {
    let x0 = widgets::half(w - 3 * T9_W - 2 * 8);
    crate::draw::rect(x0 + (i % 3) * (T9_W + 8), top + (i / 3) * (T9_H + 8), T9_W as int, T9_H as int)
}

/// What the first `n` T9 keys draw.
pub open spec fn t9_keys_ops(k: KeyboardView, w: int, top: int, n: int) -> Seq<Op<Seq<char>>>
    decreases n,
{
    if n <= 0 {
        Seq::empty()
    } else {
        let i = n - 1;
        t9_keys_ops(k, w, top, n - 1) + cap_ops(
            t9_rect(w, top, i),
            k.focus == (i / 3, i % 3),
            true,
            2,
            Face::ListTitle,
            t9_label(k.layer, i),
        )
    }
}

/// The label of action `c`; the T9 keyboard always offers its symbols.
pub open spec fn action_label(k: KeyboardView, c: int) -> Seq<char> {
    if c == 0 {
        if !k.t9 && k.layer == Layer::Symbols {
            "abc"@
        } else {
            "?123"@
        }
    } else if c == 1 {
        "Space"@
    } else if c == 2 {
        "Del"@
    } else {
        "✓"@
    }
}

/// The face of action `c`: the check mark lives in the mono face only.
pub open spec fn action_face(c: int) -> Face {
    if c == 3 {
        Face::Mono
    } else {
        Face::Body
    }
}

/// Where action `c` of the T9 keyboard stands.
pub open spec fn t9_action_rect(w: int, top: int, c: int) -> Rect {
    let aw = widgets::quotient(w - 2 * INSET - 3 * 8, 4);
    crate::draw::rect(INSET + c * (aw + 8), top + 4 * (T9_H + 8) + 8, aw, KEY_H as int)
}

/// The width of action `c` of the full keyboard.
pub open spec fn action_w(c: int) -> int {
    if c == 1 {
        192
    } else {
        96
    }
}

/// Where action `c` of the full keyboard stands.
pub open spec fn action_rect(w: int, top: int, c: int) -> Rect {
    let x0 = widgets::half(w - 504);
    crate::draw::rect(
        x0 + (if c == 0 { 0int } else if c == 1 { 104 } else if c == 2 { 304 } else { 408 }),
        top + 3 * KEY_H + 8,
        action_w(c),
        KEY_H as int,
    )
}

/// What the first `n` actions draw.
pub open spec fn actions_ops(k: KeyboardView, w: int, top: int, n: int) -> Seq<Op<Seq<char>>>
    decreases n,
{
    if n <= 0 {
        Seq::empty()
    } else {
        let c = n - 1;
        actions_ops(k, w, top, n - 1) + cap_ops(
            if k.t9 { t9_action_rect(w, top, c) } else { action_rect(w, top, c) },
            k.focus == (k.rows() - 1, c),
            k.t9,
            2,
            action_face(c),
            action_label(k, c),
        )
    }
}

/// Where key `c` of a row of `n` stands.
pub open spec fn key_rect(w: int, top: int, r: int, n: int, c: int) -> Rect {
    crate::draw::rect(widgets::half(w - n * KEY_W) + c * KEY_W, top + r * KEY_H, KEY_W as int, KEY_H as int)
}

/// What the first `n` keys of row `r` draw.
pub open spec fn row_ops(k: KeyboardView, w: int, top: int, r: int, n: int) -> Seq<Op<Seq<char>>>
    decreases n,
{
    if n <= 0 {
        Seq::empty()
    } else {
        let keys = crate::keyboard::row_keys(k.layer, r);
        row_ops(k, w, top, r, n - 1) + cap_ops(
            key_rect(w, top, r, keys.len() as int, n - 1),
            k.focus == (r, n - 1),
            false,
            1,
            Face::ListTitle,
            seq![keys[n - 1]],
        )
    }
}

/// What the keys draw.
pub open spec fn keys_ops(k: KeyboardView, w: int, top: int) -> Seq<Op<Seq<char>>> {
    (if k.t9 {
        t9_keys_ops(k, w, top, 12)
    } else {
        row_ops(k, w, top, 0, k.row_len(0)) + row_ops(k, w, top, 1, k.row_len(1)) + row_ops(k, w, top, 2, k.row_len(2))
    }) + actions_ops(k, w, top, 4)
}

/// Where the keys start: under the field, which is under the code or the address.
pub open spec fn keys_top(code: int) -> int {
    CONTENT_TOP + (if code > 64 { code } else { 64 }) + 12 + 64
}

/// What the keyboard draws. `code` is the size of the address as a code, if it could be made one, and
/// `widths` holds, for each character of the visible text, the width of that text from it on.
pub open spec fn keyboard_ops(
    k: KeyboardScreen,
    s: Sheet,
    url: Seq<char>,
    code: Option<int>,
    widths: Seq<i32>,
) -> Seq<Op<Seq<char>>> {
    let size = match code {
        Some(q) => q,
        None => 0,
    };
    let top = keys_top(size);
    widgets::running_head_ops(s, k.title@, None) + (match code {
        Some(q) => seq![Op::Code((s.w - INSET - q) as i32, CONTENT_TOP, 3)],
        None => Seq::empty(),
    }) + seq![
        crate::draw::caps(INSET as int, CONTENT_TOP + 18, "Type on your phone"@, None, false),
        crate::draw::plain(Face::Mono, INSET as int, crate::draw::at(CONTENT_TOP + 44), url, None, false),
    ] + widgets::text_field_ops(
        crate::draw::rect(INSET as int, top - 64, s.w - 2 * INSET, 48),
        k.visible_text(),
        widths,
        k.hint@,
        true,
    ) + keys_ops(k@, s.w as int, top) + widgets::rail_ops(s, seq!["Shift"@, "Back"@, "Type"@, "Done"@], None)
}

impl KeyboardScreen {
    fn draw_t9_keys(&self, f: &mut Frame, top: i32)
        requires
            old(f).sheet.wf(),
            0 <= top <= 0x10_0000,
        ensures
            final(f).sheet == old(f).sheet,
            final(f)@ == old(f)@ + t9_keys_ops(self@, old(f).sheet.w as int, top as int, 12),
    {
        let w: i32 = f.width() as i32;
        let x0: i32 = halve(w - 3 * T9_W - 2 * 8);
        let mut i: usize = 0;
        assert(f@ =~= old(f)@ + t9_keys_ops(self@, w as int, top as int, 0));
        while i < 12
            invariant
                i <= 12,
                0 <= top <= 0x10_0000,
                w == old(f).sheet.w,
                old(f).sheet.wf(),
                x0 == widgets::half(w - 3 * T9_W - 2 * 8),
                f.sheet == old(f).sheet,
                f@ == old(f)@ + t9_keys_ops(self@, w as int, top as int, i as int),
            decreases 12 - i,
        {
            let (r, c) = (i / 3, i % 3);
            assert(r < 4 && c < 3);
            let rect = Rect::new(
                x0 + c as i32 * (T9_W + 8),
                top + r as i32 * (T9_H + 8),
                T9_W as u32,
                T9_H as u32,
            );
            assert(rect == t9_rect(w as int, top as int, i as int));
            let focused = self.focus.0 == r && self.focus.1 == c;
            let label = t9_label_text(self.layer, i);
            cap(f, rect, focused, true, 2, Face::ListTitle, &label);
            assert(f@ =~= old(f)@ + t9_keys_ops(self@, w as int, top as int, i + 1));
            i += 1;
        }
    }

    fn draw_row(&self, f: &mut Frame, top: i32, r: usize)
        requires
            old(f).sheet.wf(),
            0 <= top <= 0x10_0000,
            r < 3,
            !self.t9,
        ensures
            final(f).sheet == old(f).sheet,
            final(f)@ == old(f)@ + row_ops(self@, old(f).sheet.w as int, top as int, r as int, self@.row_len(r as int)),
    {
        let w: i32 = f.width() as i32;
        let keys = text::chars_of(self.rows(r));
        let ghost ks = crate::keyboard::row_keys(self.layer, r as int);
        proof {
            crate::keyboard::lemma_row_sizes();
        }
        let n: usize = keys.len();
        let x0: i32 = halve(w - n as i32 * KEY_W);
        let mut c: usize = 0;
        assert(f@ =~= old(f)@ + row_ops(self@, w as int, top as int, r as int, 0));
        while c < n
            invariant
                c <= n <= 10,
                n == keys@.len(),
                keys@ == ks,
                ks == crate::keyboard::row_keys(self.layer, r as int),
                r < 3,
                0 <= top <= 0x10_0000,
                w == old(f).sheet.w,
                old(f).sheet.wf(),
                x0 == widgets::half(w - n * KEY_W),
                f.sheet == old(f).sheet,
                f@ == old(f)@ + row_ops(self@, w as int, top as int, r as int, c as int),
            decreases n - c,
        {
            let rect = Rect::new(x0 + c as i32 * KEY_W, top + r as i32 * KEY_H, KEY_W as u32, KEY_H as u32);
            assert(rect == key_rect(w as int, top as int, r as int, n as int, c as int));
            let focused = self.focus.0 == r && self.focus.1 == c;
            let mut label = String::new();
            label.push(keys[c]);
            assert(label@ =~= seq![ks[c as int]]);
            cap(f, rect, focused, false, 1, Face::ListTitle, &label);
            assert(f@ =~= old(f)@ + row_ops(self@, w as int, top as int, r as int, c + 1));
            c += 1;
        }
    }

    fn draw_action(&self, f: &mut Frame, top: i32, c: usize)
        requires
            old(f).sheet.wf(),
            0 <= top <= 0x10_0000,
            c < 4,
            old(f).sheet.w >= 2 * INSET + 24,
        ensures
            final(f).sheet == old(f).sheet,
            final(f)@ == old(f)@ + cap_ops(
                if self.t9 {
                    t9_action_rect(old(f).sheet.w as int, top as int, c as int)
                } else {
                    action_rect(old(f).sheet.w as int, top as int, c as int)
                },
                self@.focus == (self@.rows() - 1, c as int),
                self.t9,
                2,
                action_face(c as int),
                action_label(self@, c as int),
            ),
    {
        let w: i32 = f.width() as i32;
        let rows: usize = if self.t9 { 5 } else { 4 };
        let focused = self.focus.0 == rows - 1 && self.focus.1 == c;
        let label = if c == 0 {
            if !self.t9 && self.layer == Layer::Symbols {
                "abc"
            } else {
                "?123"
            }
        } else if c == 1 {
            "Space"
        } else if c == 2 {
            "Del"
        } else {
            "✓"
        };
        let face = if c == 3 { Face::Mono } else { Face::Body };
        let rect = if self.t9 {
            let aw: i32 = (w - 2 * INSET - 3 * 8) / 4;
            assert(0 <= c * (aw + 8) <= 3 * (aw + 8)) by (nonlinear_arith)
                requires
                    0 <= c < 4,
                    aw >= 0,
            ;
            Rect::new(INSET + c as i32 * (aw + 8), top + 4 * (T9_H + 8) + 8, aw as u32, KEY_H as u32)
        } else {
            let x0: i32 = halve(w - 504);
            let dx: i32 = if c == 0 { 0 } else if c == 1 { 104 } else if c == 2 { 304 } else { 408 };
            Rect::new(x0 + dx, top + 3 * KEY_H + 8, if c == 1 { 192 } else { 96 }, KEY_H as u32)
        };
        cap(f, rect, focused, self.t9, 2, face, label);
    }

    fn draw_keys(&self, f: &mut Frame, top: i32)
        requires
            old(f).sheet.wf(),
            0 <= top <= 0x10_0000,
            old(f).sheet.w >= 2 * INSET + 24,
        ensures
            final(f).sheet == old(f).sheet,
            final(f)@ == old(f)@ + keys_ops(self@, old(f).sheet.w as int, top as int),
    {
        let ghost w = f.sheet.w as int;
        if self.t9 {
            self.draw_t9_keys(f, top);
        } else {
            self.draw_row(f, top, 0);
            self.draw_row(f, top, 1);
            self.draw_row(f, top, 2);
        }
        let ghost before = f@;
        self.draw_action(f, top, 0);
        self.draw_action(f, top, 1);
        self.draw_action(f, top, 2);
        self.draw_action(f, top, 3);
        proof {
            reveal_with_fuel(actions_ops, 5);
            assert(f@ =~= before + actions_ops(self@, w, top as int, 4));
            assert(f@ =~= old(f)@ + keys_ops(self@, w, top as int));
        }
    }

    /// Draw the keyboard. `url` is the address to type at from the phone, `code` its size as a code at
    /// three dots a module, if it could be made one, and `widths` holds, for each character of
    /// [`KeyboardScreen::shown`], the width of that text from it on.
    #[verifier::spinoff_prover]
    #[verifier::rlimit(60)]
    pub fn draw(&self, f: &mut Frame, url: &str, code: Option<i32>, widths: &Vec<i32>) -> (r: Refresh)
        requires
            old(f).sheet.wf(),
            old(f).sheet.w >= 2 * INSET + 24,
            code matches Some(q) ==> 0 <= q <= 0x1_0000,
            widths@.len() == self.text@.len(),
            forall|i: int| 0 <= i < widths@.len() ==> 0 <= #[trigger] widths@[i],
        ensures
            r == Refresh::Du,
            final(f).sheet == old(f).sheet,
            final(f)@ == old(f)@ + keyboard_ops(
                *self,
                old(f).sheet,
                url@,
                crate::draw::widen(code),
                widths@,
            ),
    {
        let w: i32 = f.width() as i32;
        let shown = self.shown();
        widgets::running_head(f, &self.title, None);
        // Phone strip.
        let mut size: i32 = 0;
        if let Some(q) = code {
            size = q;
            f.draw(Op::Code(w - INSET - q, CONTENT_TOP, 3));
        }
        f.label(INSET, CONTENT_TOP + 18, "Type on your phone", None, false);
        f.text(Face::Mono, INSET, Base::At(CONTENT_TOP + 44), url, None, false);
        let field_y: i32 = CONTENT_TOP + (if size > 64 { size } else { 64 }) + 12;
        widgets::text_field(f, Rect::new(INSET, field_y, (w - 2 * INSET) as u32, 48), &shown, widths, &self.hint, true);
        self.draw_keys(f, field_y + 64);
        widgets::rail(f, ["Shift", "Back", "Type", "Done"], None);
        assert(f@ =~= old(f)@ + keyboard_ops(
            *self,
            old(f).sheet,
            url@,
            crate::draw::widen(code),
            widths@,
        ));
        Refresh::Du
    }
}

/// The keys are drawn the same whatever the text.
proof fn lemma_keys_show_no_text(a: KeyboardView, b: KeyboardView, w: int, top: int, r: int, n: int)
    requires
        b == (KeyboardView { text: b.text, ..a }),
    ensures
        t9_keys_ops(a, w, top, n) == t9_keys_ops(b, w, top, n),
        actions_ops(a, w, top, n) == actions_ops(b, w, top, n),
        row_ops(a, w, top, r, n) == row_ops(b, w, top, r, n),
    decreases n,
{
    if n > 0 {
        lemma_keys_show_no_text(a, b, w, top, r, n - 1);
    }
}

/// A hidden text stays hidden: two keyboards for hidden text that differ in the text alone draw the
/// same, as long as the texts are equally long and end in the same character.
pub proof fn law_hidden_text_shows_its_end_alone(
    a: KeyboardScreen,
    b: KeyboardScreen,
    s: Sheet,
    url: Seq<char>,
    code: Option<int>,
    widths: Seq<i32>,
)
    requires
        a.secret,
        b == (KeyboardScreen { text: b.text, ..a }),
        a.text@.len() == b.text@.len(),
        a.text@.len() > 0 ==> a.text@.last() == b.text@.last(),
    ensures
        a.visible_text() == b.visible_text(),
        keyboard_ops(a, s, url, code, widths) == keyboard_ops(b, s, url, code, widths),
{
    assert(a.visible_text() =~= b.visible_text());
    let size = match code {
        Some(q) => q,
        None => 0,
    };
    let (w, top) = (s.w as int, keys_top(size));
    assert(b@ == (KeyboardView { text: b@.text, ..a@ }));
    lemma_keys_show_no_text(a@, b@, w, top, 0, 12);
    lemma_keys_show_no_text(a@, b@, w, top, 0, 4);
    lemma_keys_show_no_text(a@, b@, w, top, 0, a@.row_len(0));
    lemma_keys_show_no_text(a@, b@, w, top, 1, a@.row_len(1));
    lemma_keys_show_no_text(a@, b@, w, top, 2, a@.row_len(2));
}

/// The keys of a row stand side by side: each starts where the one before it ends.
pub proof fn law_keys_stand_side_by_side(w: int, top: int, r: int, n: int, c: int)
    requires
        0 <= w <= 0x1_0000,
        0 <= top <= 0x10_0000,
        0 <= r < 3,
        0 < n <= 10,
        0 <= c < n - 1,
    ensures
        key_rect(w, top, r, n, c).right_edge() == key_rect(w, top, r, n, c + 1).x,
        key_rect(w, top, r, n, c).y == key_rect(w, top, r, n, c + 1).y,
{
}

/// On a panel wide enough for the longest row every key lies on the panel.
pub proof fn law_keys_lie_on_the_panel(w: int, top: int, r: int, n: int, c: int)
    requires
        10 * KEY_W <= w <= 0x1_0000,
        0 <= top <= 0x10_0000,
        0 <= r < 3,
        0 < n <= 10,
        0 <= c < n,
    ensures
        0 <= key_rect(w, top, r, n, c).x,
        key_rect(w, top, r, n, c).right_edge() <= w,
{
}

/// The actions do what their keys say: "Space" appends a space while there is room, "Del" takes the last character
/// away, "?123" brings the symbols and "abc" the letters, and the check mark hands the text over as it stands.
pub proof fn law_actions_do_what_their_keys_say(k: KeyboardView, c: int, now: u32)
    requires
        k.wf(),
        0 <= c < 4,
        k.focus == (k.rows() - 1, c),
    ensures
        ({
            let press = KeyEvent { key: Key::Confirm, kind: KeyKind::Press };
            let after = k.keyed(press, now);
            &&& action_label(k, c) == "Space"@ ==> after.text == if text::utf8_len(k.text) < 200 {
                k.text.push(' ')
            } else {
                k.text
            }
            &&& action_label(k, c) == "Del"@ ==> after.text == if k.text.len() > 0 {
                k.text.drop_last()
            } else {
                k.text
            }
            &&& action_label(k, c) == "✓"@ ==> after == k && k.outcome(press) == Outcome::Accepted
            &&& action_label(k, c) != "✓"@ ==> k.outcome(press) == Outcome::Redrawn
            &&& action_label(k, c) == "abc"@ ==> after.layer == Layer::Lower && after.text == k.text
            &&& action_label(k, c) == "?123"@ && !k.t9 ==> after.layer == Layer::Symbols && after.text == k.text
            &&& after.focus == k.focus
        }),
{
    reveal_strlit("Space");
    reveal_strlit("Del");
    reveal_strlit("✓");
    reveal_strlit("abc");
    reveal_strlit("?123");
    assert("Space"@.len() == 5 && "Del"@.len() == 3 && "✓"@.len() == 1 && "abc"@.len() == 3 && "?123"@.len() == 4);
    assert("Del"@[0] == 'D' && "abc"@[0] == 'a');
    assert(text::capital(' ') == ' ');
}

/// The actions are each on a key of their own: there is one for a space, one that deletes, one for the other signs
/// and one that is done.
pub proof fn law_every_action_has_a_key(k: KeyboardView)
    ensures
        exists|c: int| 0 <= c < 4 && #[trigger] action_label(k, c) == "Space"@,
        exists|c: int| 0 <= c < 4 && #[trigger] action_label(k, c) == "Del"@,
        exists|c: int| 0 <= c < 4 && #[trigger] action_label(k, c) == "✓"@,
        forall|c: int, d: int|
            0 <= c < d < 4 ==> #[trigger] action_label(k, c) != #[trigger] action_label(k, d),
{
    reveal_strlit("Space");
    reveal_strlit("Del");
    reveal_strlit("✓");
    reveal_strlit("abc");
    reveal_strlit("?123");
    assert("Space"@.len() == 5 && "Del"@.len() == 3 && "✓"@.len() == 1 && "abc"@.len() == 3 && "?123"@.len() == 4);
    assert("Del"@[0] == 'D' && "abc"@[0] == 'a');
    assert(action_label(k, 1) == "Space"@ && action_label(k, 2) == "Del"@ && action_label(k, 3) == "✓"@);
}

/// A space and then a deletion give back the text there was, wherever the two keys stand.
pub proof fn law_deleting_undoes_a_space(k: KeyboardView, space: int, del: int, now: u32, then: u32)
    requires
        k.wf(),
        0 <= space < 4,
        0 <= del < 4,
        action_label(k, space) == "Space"@,
        action_label(k, del) == "Del"@,
        text::utf8_len(k.text) < 200,
    ensures
        ({
            let press = KeyEvent { key: Key::Confirm, kind: KeyKind::Press };
            let spaced = (KeyboardView { focus: (k.rows() - 1, space), ..k }).keyed(press, now);
            let back = (KeyboardView { focus: (k.rows() - 1, del), ..spaced }).keyed(press, then);
            spaced.text != k.text && back.text == k.text
        }),
{
    let press = KeyEvent { key: Key::Confirm, kind: KeyKind::Press };
    let on_space = KeyboardView { focus: (k.rows() - 1, space), ..k };
    law_actions_do_what_their_keys_say(on_space, space, now);
    let spaced = on_space.keyed(press, now);
    let on_del = KeyboardView { focus: (k.rows() - 1, del), ..spaced };
    assert(action_label(on_space, space) == action_label(k, space));
    law_actions_do_what_their_keys_say(on_del, del, then);
    reveal_strlit("Del");
    reveal_strlit("abc");
    reveal_strlit("?123");
    reveal_strlit("Space");
    reveal_strlit("✓");
    assert("Space"@.len() == 5 && "Del"@.len() == 3 && "✓"@.len() == 1 && "abc"@.len() == 3 && "?123"@.len() == 4);
    assert("Del"@[0] == 'D' && "abc"@[0] == 'a');
    assert(del == 2);
    assert(action_label(on_del, del) == "Del"@);
    assert(k.text.push(' ').drop_last() =~= k.text);
    assert(spaced.text.len() == k.text.len() + 1);
}

/// A letter key types the letter on it while there is room, and a capital is for one letter alone: the small letters
/// are back after it.
pub proof fn law_letter_keys_type_their_letter(k: KeyboardView, now: u32)
    requires
        k.wf(),
        !k.t9,
        k.focus.0 < 3,
        k.focus.1 < k.row_len(k.focus.0),
        text::utf8_len(k.text) < 200,
    ensures
        ({
            let after = k.keyed(KeyEvent { key: Key::Confirm, kind: KeyKind::Press }, now);
            &&& after.text == k.text.push(crate::keyboard::row_keys(k.layer, k.focus.0)[k.focus.1])
            &&& after.layer == if k.layer == Layer::Upper {
                Layer::Lower
            } else {
                k.layer
            }
            &&& after.focus == k.focus
        }),
{
    if k.layer == Layer::Symbols {
        crate::keyboard::law_capitals_stand_over_their_letters(k.focus.0, 0);
    } else {
        crate::keyboard::law_capitals_stand_over_their_letters(k.focus.0, k.focus.1);
    }
}

/// Every letter key is drawn with the letter that it types, in the middle of the key; the one with the focus is black
/// with a white letter.
pub proof fn law_letter_keys_show_their_letter(k: KeyboardView, w: int, top: int, r: int, c: int)
    requires
        !k.t9,
        0 <= r < 3,
        0 <= c < k.row_len(r),
    ensures
        ({
            let keys = crate::keyboard::row_keys(k.layer, r);
            let rect = key_rect(w, top, r, keys.len() as int, c);
            let ops = keys_ops(k, w, top);
            &&& crate::draw::draws(
                ops,
                crate::draw::centred(
                    Face::ListTitle,
                    rect.x + 24,
                    crate::draw::mid(rect.y as int, 56),
                    seq![keys[c]],
                    None,
                    k.focus == (r, c),
                ),
            )
            &&& k.focus == (r, c) ==> crate::draw::draws(ops, Op::Fill(rect, Ink::Black))
        }),
{
    broadcast use {
        crate::draw::lemma_shows_in_two,
        crate::draw::lemma_shows_pushed,
        crate::draw::lemma_shows_between_two,
        crate::draw::lemma_shows_between_pushed,
        crate::draw::lemma_written_in_two,
        crate::draw::lemma_written_pushed,
        crate::draw::lemma_draws_in_two,
        crate::draw::lemma_draws_pushed,
    };
    lemma_row_shows(k, w, top, r, k.row_len(r), c);
}

proof fn lemma_row_shows(k: KeyboardView, w: int, top: int, r: int, n: int, c: int)
    requires
        0 <= c < n,
    ensures
        ({
            let keys = crate::keyboard::row_keys(k.layer, r);
            let rect = key_rect(w, top, r, keys.len() as int, c);
            let ops = row_ops(k, w, top, r, n);
            &&& crate::draw::draws(
                ops,
                crate::draw::centred(
                    Face::ListTitle,
                    rect.x + 24,
                    crate::draw::mid(rect.y as int, 56),
                    seq![keys[c]],
                    None,
                    k.focus == (r, c),
                ),
            )
            &&& k.focus == (r, c) ==> crate::draw::draws(ops, Op::Fill(rect, Ink::Black))
        }),
    decreases n,
{
    broadcast use {
        crate::draw::lemma_shows_in_two,
        crate::draw::lemma_shows_pushed,
        crate::draw::lemma_shows_between_two,
        crate::draw::lemma_shows_between_pushed,
        crate::draw::lemma_written_in_two,
        crate::draw::lemma_written_pushed,
        crate::draw::lemma_draws_in_two,
        crate::draw::lemma_draws_pushed,
    };
    if c < n - 1 {
        lemma_row_shows(k, w, top, r, n - 1, c);
    }
}

/// Every action and every number key is drawn with its label.
pub proof fn law_every_label_is_drawn(k: KeyboardView, w: int, top: int, c: int, i: int)
    requires
        0 <= c < 4,
        0 <= i < 12,
    ensures
        crate::draw::shows(keys_ops(k, w, top), action_label(k, c)),
        k.t9 ==> crate::draw::shows(keys_ops(k, w, top), t9_label(k.layer, i)),
{
    broadcast use {
        crate::draw::lemma_shows_in_two,
        crate::draw::lemma_shows_pushed,
        crate::draw::lemma_shows_between_two,
        crate::draw::lemma_shows_between_pushed,
        crate::draw::lemma_written_in_two,
        crate::draw::lemma_written_pushed,
        crate::draw::lemma_draws_in_two,
        crate::draw::lemma_draws_pushed,
    };
    lemma_actions_show(k, w, top, 4, c);
    lemma_t9_shows(k, w, top, 12, i);
}

proof fn lemma_actions_show(k: KeyboardView, w: int, top: int, n: int, c: int)
    requires
        0 <= c < n,
    ensures
        crate::draw::shows(actions_ops(k, w, top, n), action_label(k, c)),
    decreases n,
{
    broadcast use {
        crate::draw::lemma_shows_in_two,
        crate::draw::lemma_shows_pushed,
        crate::draw::lemma_shows_between_two,
        crate::draw::lemma_shows_between_pushed,
        crate::draw::lemma_written_in_two,
        crate::draw::lemma_written_pushed,
        crate::draw::lemma_draws_in_two,
        crate::draw::lemma_draws_pushed,
    };
    if c < n - 1 {
        lemma_actions_show(k, w, top, n - 1, c);
    }
}

proof fn lemma_t9_shows(k: KeyboardView, w: int, top: int, n: int, i: int)
    requires
        0 <= i < n,
    ensures
        crate::draw::shows(t9_keys_ops(k, w, top, n), t9_label(k.layer, i)),
    decreases n,
{
    broadcast use {
        crate::draw::lemma_shows_in_two,
        crate::draw::lemma_shows_pushed,
        crate::draw::lemma_shows_between_two,
        crate::draw::lemma_shows_between_pushed,
        crate::draw::lemma_written_in_two,
        crate::draw::lemma_written_pushed,
        crate::draw::lemma_draws_in_two,
        crate::draw::lemma_draws_pushed,
    };
    if i < n - 1 {
        lemma_t9_shows(k, w, top, n - 1, i);
    }
}

/// The first tap on a number key types the first letter on its label.
pub proof fn law_number_keys_type_their_label(k: KeyboardView, i: int, now: u32)
    requires
        k.wf(),
        k.t9,
        0 <= i < 11,
        i != 9,
        !k.taps_on(i, now),
        text::utf8_len(k.text) < 200,
    ensures
        k.tapped(i, now).text == k.text.push(t9_label(k.layer, i)[0]),
{
    reveal_strlit("1.,?");
    reveal_strlit("abc");
    reveal_strlit("def");
    reveal_strlit("ghi");
    reveal_strlit("jkl");
    reveal_strlit("mno");
    reveal_strlit("pqrs");
    reveal_strlit("tuv");
    reveal_strlit("wxyz");
    reveal_strlit("0 ");
    reveal_strlit("0 ␣");
    let set = crate::keyboard::t9_letters(i);
    assert forall|j: int| 0 <= j < set.len() implies (set[j] as u32) < 0x80 by {}
    assert(vstd::utf8::is_ascii_chars(set));
    assert(text::capital('0') == '0' && text::capital('1') == '1');
}

/// The keyboard's screen says what is typed for, how to type on a phone, and what the keys of the reader do.
pub proof fn law_keyboard_says_what_it_is_for(k: KeyboardScreen, s: Sheet, url: Seq<char>, code: Option<int>, widths: Seq<i32>)
    requires
        widths.len() == k.visible_text().len(),
    ensures
        ({
            let ops = keyboard_ops(k, s, url, code, widths);
            &&& crate::draw::shows(ops, k.title@) && crate::draw::shows(ops, url) && crate::draw::shows(ops, "Type on your phone"@)
            &&& k.text@.len() == 0 ==> crate::draw::shows(ops, k.hint@)
        }),
{
    broadcast use {
        crate::draw::lemma_shows_in_two,
        crate::draw::lemma_shows_pushed,
        crate::draw::lemma_shows_between_two,
        crate::draw::lemma_shows_between_pushed,
        crate::draw::lemma_written_in_two,
        crate::draw::lemma_written_pushed,
        crate::draw::lemma_draws_in_two,
        crate::draw::lemma_draws_pushed,
    };
    let size = match code {
        Some(q) => q,
        None => 0,
    };
    let r = crate::draw::rect(INSET as int, keys_top(size) - 64, s.w - 2 * INSET, 48);
    widgets::law_heads_say_their_title(s, k.title@, None, Seq::empty(), Seq::empty());
    widgets::law_fields_show_text_or_hint(r, k.visible_text(), widths, k.hint@);
}

/// The keyboard says over the keys of the reader what they do: Left is shift, Right is done.
pub proof fn law_keyboard_says_its_keys(k: KeyboardScreen, s: Sheet, url: Seq<char>, code: Option<int>, widths: Seq<i32>)
    requires
        s.wf(),
    ensures
        ({
            let ops = keyboard_ops(k, s, url, code, widths);
            let cell = s.w as int / 4;
            &&& crate::draw::shows_between(ops, "Shift"@, 0, cell)
            &&& crate::draw::shows_between(ops, "Back"@, cell, 2 * cell)
            &&& crate::draw::shows_between(ops, "Type"@, 2 * cell, 3 * cell)
            &&& crate::draw::shows_between(ops, "Done"@, 3 * cell, 4 * cell)
        }),
{
    broadcast use {
        crate::draw::lemma_shows_in_two,
        crate::draw::lemma_shows_pushed,
        crate::draw::lemma_shows_between_two,
        crate::draw::lemma_shows_between_pushed,
        crate::draw::lemma_written_in_two,
        crate::draw::lemma_written_pushed,
        crate::draw::lemma_draws_in_two,
        crate::draw::lemma_draws_pushed,
    };
    let labels = seq!["Shift"@, "Back"@, "Type"@, "Done"@];
    reveal_strlit("Shift");
    reveal_strlit("Back");
    reveal_strlit("Type");
    reveal_strlit("Done");
    reveal_strlit("—");
    assert("—"@.len() == 1 && "Shift"@.len() == 5 && "Back"@.len() == 4 && "Type"@.len() == 4 && "Done"@.len() == 4);
    widgets::law_rail_labels_stand_over_their_keys(s, labels, None, 0);
    widgets::law_rail_labels_stand_over_their_keys(s, labels, None, 1);
    widgets::law_rail_labels_stand_over_their_keys(s, labels, None, 2);
    widgets::law_rail_labels_stand_over_their_keys(s, labels, None, 3);
}

/// The field shows what is typed: all of it where it fits, and a secret by its last character alone.
pub proof fn law_keyboard_shows_what_is_typed(k: KeyboardScreen, s: Sheet, url: Seq<char>, code: Option<int>, widths: Seq<i32>)
    requires
        s.wf(),
        widths.len() == k.visible_text().len(),
        k.text@.len() > 0,
        widths.len() > 0,
        widths[0] <= s.w - 2 * INSET - 24,
    ensures
        !k.secret ==> crate::draw::shows(keyboard_ops(k, s, url, code, widths), k.text@),
        crate::draw::shows(keyboard_ops(k, s, url, code, widths), k.visible_text()),
{
    broadcast use {
        crate::draw::lemma_shows_in_two,
        crate::draw::lemma_shows_pushed,
        crate::draw::lemma_shows_between_two,
        crate::draw::lemma_shows_between_pushed,
        crate::draw::lemma_written_in_two,
        crate::draw::lemma_written_pushed,
        crate::draw::lemma_draws_in_two,
        crate::draw::lemma_draws_pushed,
    };
    let size = match code {
        Some(q) => q,
        None => 0,
    };
    let r = crate::draw::rect(INSET as int, keys_top(size) - 64, s.w - 2 * INSET, 48);
    assert(r.w == s.w - 2 * INSET);
    widgets::law_fields_show_text_or_hint(r, k.visible_text(), widths, k.hint@);
}

} // verus!
