//! On-device text entry: a QWERTY keyboard with a "Type on your phone" strip, and a compact T9
//! variant for search.
use vstd::prelude::*;

use crate::input::{Key, KeyEvent, KeyKind};
use crate::platform::{Action, Event, Result_, WifiState};
use crate::text;

verus! {

/// Longest text: a character is taken while the text is shorter than this, in bytes.
pub const TEXT_BYTES: usize = 200;

/// How soon a T9 key must be tapped again to go on to its next letter.
pub const TAP_MS: u32 = 900;

/// Keyboard layer.
#[derive(Clone, Copy, Debug, PartialEq, Eq, Structural)]
pub enum Layer {
    /// Small letters.
    Lower,
    /// Capitals.
    Upper,
    /// Digits and signs.
    Symbols,
}

/// The keyboard screen.
#[derive(Debug, PartialEq, Eq)]
pub struct KeyboardScreen {
    /// What is asked for.
    pub title: String,
    /// The text so far.
    pub text: String,
    /// Shown while the text is empty.
    pub hint: String,
    /// Which keys are shown.
    pub layer: Layer,
    /// Focus: (row, col); the row under the keys is the action row.
    pub focus: (usize, usize),
    /// The compact variant.
    pub t9: bool,
    /// T9 multi-tap: key index, which of its letters, when.
    pub tap: Option<(usize, usize, u32)>,
    /// Whether the text is hidden but for its last character.
    pub secret: bool,
}

/// The characters of a row of keys.
pub open spec fn row_keys(layer: Layer, row: int) -> Seq<char> {
    match layer {
        Layer::Lower => if row == 0 {
            "qwertyuiop"@
        } else if row == 1 {
            "asdfghjkl"@
        } else {
            "zxcvbnm"@
        },
        Layer::Upper => if row == 0 {
            "QWERTYUIOP"@
        } else if row == 1 {
            "ASDFGHJKL"@
        } else {
            "ZXCVBNM"@
        },
        Layer::Symbols => if row == 0 {
            "1234567890"@
        } else if row == 1 {
            "@#$%&-+()"@
        } else {
            "*\"':;!?/"@
        },
    }
}

/// How many keys a row of a layer has.
pub open spec fn row_size(layer: Layer, row: int) -> int {
    if row == 0 {
        10
    } else if row == 1 {
        9
    } else if layer == Layer::Symbols {
        8
    } else {
        7
    }
}

pub(crate) proof fn lemma_row_sizes()
    ensures
        forall|layer: Layer, row: int| 0 <= row < 3 ==> (#[trigger] row_keys(layer, row)).len() == row_size(layer, row),
{
    reveal_strlit("qwertyuiop");
    reveal_strlit("asdfghjkl");
    reveal_strlit("zxcvbnm");
    reveal_strlit("QWERTYUIOP");
    reveal_strlit("ASDFGHJKL");
    reveal_strlit("ZXCVBNM");
    reveal_strlit("1234567890");
    reveal_strlit("@#$%&-+()");
    reveal_strlit("*\"':;!?/");
}

/// The letters of a T9 key; the last three keys are shift, zero and delete.
pub open spec fn t9_letters(i: int) -> Seq<char> {
    if i == 0 {
        "1.,?"@
    } else if i == 1 {
        "abc"@
    } else if i == 2 {
        "def"@
    } else if i == 3 {
        "ghi"@
    } else if i == 4 {
        "jkl"@
    } else if i == 5 {
        "mno"@
    } else if i == 6 {
        "pqrs"@
    } else if i == 7 {
        "tuv"@
    } else if i == 8 {
        "wxyz"@
    } else if i == 9 {
        "⇧"@
    } else if i == 10 {
        "0 "@
    } else {
        "⌫"@
    }
}

/// The letters of a T9 key.
pub fn t9_set(i: usize) -> (r: &'static str)
    requires
        i < 12,
    ensures
        r@ == t9_letters(i as int),
        1 <= r@.len() <= 4,
{
    proof {
        reveal_strlit("1.,?");
        reveal_strlit("abc");
        reveal_strlit("def");
        reveal_strlit("ghi");
        reveal_strlit("jkl");
        reveal_strlit("mno");
        reveal_strlit("pqrs");
        reveal_strlit("tuv");
        reveal_strlit("wxyz");
        reveal_strlit("⇧");
        reveal_strlit("0 ");
        reveal_strlit("⌫");
    }
    match i {
        0 => "1.,?",
        1 => "abc",
        2 => "def",
        3 => "ghi",
        4 => "jkl",
        5 => "mno",
        6 => "pqrs",
        7 => "tuv",
        8 => "wxyz",
        9 => "⇧",
        10 => "0 ",
        _ => "⌫",
    }
}

/// What a keyboard holds, with its text as a sequence of characters.
pub struct KeyboardView {
    pub text: Seq<char>,
    pub layer: Layer,
    pub focus: (int, int),
    pub t9: bool,
    pub tap: Option<(int, int, u32)>,
}

/// What a key press comes to.
pub enum Outcome {
    /// Nothing.
    Ignored,
    /// The screen is drawn again.
    Redrawn,
    /// The keyboard closes with its text.
    Accepted,
    /// The keyboard closes without.
    Cancelled,
}

impl KeyboardView {
    /// How many rows there are, the action row with them.
    pub open spec fn rows(self) -> int {
        if self.t9 {
            5
        } else {
            4
        }
    }

    /// How many keys a row has.
    pub open spec fn row_len(self, row: int) -> int {
        if self.t9 {
            if row < 4 {
                3
            } else {
                4
            }
        } else if row < 3 {
            row_size(self.layer, row)
        } else {
            4
        }
    }

    /// Whether the focus is on the keyboard. A row may be one key shorter than the one the focus was
    /// set in, where the layer has changed since.
    pub open spec fn wf(self) -> bool {
        &&& 0 <= self.focus.0 < self.rows()
        &&& 0 <= self.focus.1
        &&& self.t9 || self.focus.0 >= 3 ==> self.focus.1 < self.row_len(self.focus.0)
        &&& self.focus.1 < 10
        &&& self.tap matches Some(t) ==> 0 <= t.0 < 12 && 0 <= t.1 < t9_letters(t.0).len()
    }

    /// The text with a character typed: a capital on the upper layer, and only while there is room.
    pub open spec fn typed(self, c: char) -> Seq<char> {
        let ch = if self.layer == Layer::Upper { text::capital(c) } else { c };
        if text::utf8_len(self.text) < TEXT_BYTES {
            self.text.push(ch)
        } else {
            self.text
        }
    }

    /// The text without its last character.
    pub open spec fn rubbed(self) -> Seq<char> {
        if self.text.len() > 0 {
            self.text.drop_last()
        } else {
            self.text
        }
    }

    /// Whether a tap on T9 key `i` goes on to the next of its letters.
    pub open spec fn taps_on(self, i: int, now: u32) -> bool {
        self.tap matches Some(t) && t.0 == i && now.wrapping_sub(t.2) < TAP_MS
    }

    /// The keyboard after T9 key `i` was pressed.
    pub open spec fn tapped(self, i: int, now: u32) -> KeyboardView {
        let set = t9_letters(i);
        if i == 9 {
            KeyboardView {
                layer: if self.layer == Layer::Upper { Layer::Lower } else { Layer::Upper },
                tap: None,
                ..self
            }
        } else if i == 11 {
            KeyboardView { text: self.rubbed(), tap: None, ..self }
        } else if self.taps_on(i, now) {
            let k = ((self.tap->0).1 + 1) % set.len() as int;
            let rubbed = KeyboardView { text: self.rubbed(), ..self };
            KeyboardView { text: rubbed.typed(set[k]), tap: Some((i, k, now)), ..self }
        } else {
            KeyboardView { text: self.typed(set[0]), tap: Some((i, 0, now)), ..self }
        }
    }

    /// The keyboard after a key of the action row was pressed: symbols, space, delete, done.
    pub open spec fn acted(self, c: int) -> KeyboardView {
        if c == 0 {
            KeyboardView {
                layer: if self.layer == Layer::Symbols { Layer::Lower } else { Layer::Symbols },
                ..self
            }
        } else if c == 1 {
            KeyboardView { text: self.typed(' '), ..self }
        } else if c == 2 {
            KeyboardView { text: self.rubbed(), ..self }
        } else {
            self
        }
    }

    /// The keyboard after the focused key was pressed. A capital is followed by small letters.
    pub open spec fn activated(self, now: u32) -> KeyboardView {
        let (r, c) = self.focus;
        if self.t9 {
            if r < 4 {
                self.tapped(r * 3 + c, now)
            } else {
                self.acted(c)
            }
        } else if r < 3 {
            let keys = row_keys(self.layer, r);
            KeyboardView {
                text: self.typed(if c < keys.len() { keys[c] } else { ' ' }),
                layer: if self.layer == Layer::Upper { Layer::Lower } else { self.layer },
                ..self
            }
        } else {
            self.acted(c)
        }
    }

    /// Whether the focused key is the one that closes the keyboard with its text.
    pub open spec fn on_done(self) -> bool {
        self.focus.0 == self.rows() - 1 && self.focus.1 >= 3
    }

    /// The focus one key back in reading order, round from the first to the last.
    pub open spec fn back(self) -> (int, int) {
        let (r, c) = self.focus;
        if c > 0 {
            (r, c - 1)
        } else {
            let nr = if r == 0 { self.rows() - 1 } else { r - 1 };
            (nr, self.row_len(nr) - 1)
        }
    }

    /// The focus one key on in reading order, round from the last to the first.
    pub open spec fn on(self) -> (int, int) {
        let (r, c) = self.focus;
        if c + 1 < self.row_len(r) {
            (r, c + 1)
        } else if r + 1 < self.rows() {
            (r + 1, 0)
        } else {
            (0, 0)
        }
    }

    /// The focus one key to the side in its row, round from one end to the other.
    pub open spec fn aside(self, left: bool) -> (int, int) {
        let (r, c) = self.focus;
        let len = self.row_len(r);
        (r, if left { (c + len - 1) % len } else { (c + 1) % len })
    }

    /// The keyboard after a key of the device.
    pub open spec fn keyed(self, ev: KeyEvent, now: u32) -> KeyboardView {
        let press = ev.kind == KeyKind::Press;
        if ev.kind == KeyKind::Release {
            self
        } else {
            match ev.key {
                Key::Left => if press {
                    KeyboardView {
                        layer: if self.layer == Layer::Lower { Layer::Upper } else { Layer::Lower },
                        ..self
                    }
                } else {
                    KeyboardView { focus: self.aside(true), ..self }
                },
                Key::Right => if press {
                    self
                } else {
                    KeyboardView { focus: self.aside(false), ..self }
                },
                Key::Confirm => if ev.kind == KeyKind::Long {
                    KeyboardView { text: self.rubbed(), ..self }
                } else {
                    self.activated(now)
                },
                Key::Up => KeyboardView { focus: self.back(), ..self },
                Key::Down => KeyboardView { focus: self.on(), ..self },
                _ => self,
            }
        }
    }

    /// What a key of the device comes to.
    pub open spec fn outcome(self, ev: KeyEvent) -> Outcome {
        let press = ev.kind == KeyKind::Press;
        if ev.kind == KeyKind::Release {
            Outcome::Ignored
        } else {
            match ev.key {
                Key::Back => if press {
                    Outcome::Cancelled
                } else {
                    Outcome::Ignored
                },
                Key::Right => if press {
                    Outcome::Accepted
                } else {
                    Outcome::Redrawn
                },
                Key::Confirm => if ev.kind != KeyKind::Long && self.on_done() {
                    Outcome::Accepted
                } else {
                    Outcome::Redrawn
                },
                Key::Power => Outcome::Ignored,
                _ => Outcome::Redrawn,
            }
        }
    }
}

/// Whether an action is what an outcome comes to, for a keyboard that holds `t`.
pub open spec fn carries(a: Action, o: Outcome, t: Seq<char>) -> bool {
    match o {
        Outcome::Ignored => a is Nothing,
        Outcome::Redrawn => a is Redraw,
        Outcome::Accepted => a matches Action::PopWith(Result_::Text(s)) && s@ == t,
        Outcome::Cancelled => a == Action::PopWith(Result_::Cancel),
    }
}

impl View for KeyboardScreen {
    type V = KeyboardView;

    open spec fn view(&self) -> KeyboardView {
        KeyboardView {
            text: self.text@,
            layer: self.layer,
            focus: (self.focus.0 as int, self.focus.1 as int),
            t9: self.t9,
            tap: match self.tap {
                Some(t) => Some((t.0 as int, t.1 as int, t.2)),
                None => None,
            },
        }
    }
}

impl KeyboardScreen {
    /// What never changes while typing.
    pub open spec fn same_task(self, o: KeyboardScreen) -> bool {
        self.title == o.title && self.hint == o.hint && self.secret == o.secret && self.t9 == o.t9
    }

    /// A keyboard for `title` with initial text.
    pub fn new(title: &str, initial: &str, hint: &str) -> (r: Self)
        ensures
            r.title@ == title@,
            r.hint@ == hint@,
            !r.secret,
            r@ == (KeyboardView { text: initial@, layer: Layer::Lower, focus: (0, 0), t9: false, tap: None }),
    {
        KeyboardScreen {
            title: text::owned(title),
            text: text::owned(initial),
            hint: text::owned(hint),
            layer: Layer::Lower,
            focus: (0, 0),
            t9: false,
            tap: None,
            secret: false,
        }
    }

    /// The compact T9 variant (search).
    pub fn t9(title: &str, initial: &str, hint: &str) -> (r: Self)
        ensures
            r.title@ == title@,
            r.hint@ == hint@,
            !r.secret,
            r@ == (KeyboardView { text: initial@, layer: Layer::Lower, focus: (0, 0), t9: true, tap: None }),
    {
        let mut k = KeyboardScreen::new(title, initial, hint);
        k.t9 = true;
        k
    }

    /// Hide the text (passwords still show the last character).
    pub fn secret(self) -> (r: Self)
        ensures
            r == (KeyboardScreen { secret: true, ..self }),
    {
        let mut k = self;
        k.secret = true;
        k
    }

    /// Boxed.
    pub fn boxed(self) -> (r: Box<Self>)
        ensures
            *r == self,
    {
        Box::new(self)
    }

    pub(crate) fn rows(&self, row: usize) -> (r: &'static str)
        requires
            row < 3,
        ensures
            r@ == row_keys(self.layer, row as int),
    {
        match self.layer {
            Layer::Lower => match row {
                0 => "qwertyuiop",
                1 => "asdfghjkl",
                _ => "zxcvbnm",
            },
            Layer::Upper => match row {
                0 => "QWERTYUIOP",
                1 => "ASDFGHJKL",
                _ => "ZXCVBNM",
            },
            Layer::Symbols => match row {
                0 => "1234567890",
                1 => "@#$%&-+()",
                _ => "*\"':;!?/",
            },
        }
    }

    fn row_len(&self, row: usize) -> (r: usize)
        requires
            row < 5,
        ensures
            r == self@.row_len(row as int),
            1 <= r <= 10,
    {
        if self.t9 {
            return if row < 4 { 3 } else { 4 };
        }
        if row < 3 {
            proof {
                lemma_row_sizes();
            }
            text::chars_of(self.rows(row)).len()
        } else {
            4
        }
    }

    /// What a text field shows of the text.
    pub open spec fn visible_text(self) -> Seq<char> {
        if self.secret && self.text@.len() > 0 {
            Seq::new((self.text@.len() - 1) as nat, |i: int| '•').push(self.text@.last())
        } else {
            self.text@
        }
    }

    /// What the text field shows: the text, or a dot for all but its last character.
    pub fn shown(&self) -> (r: String)
        ensures
            r@ == self.visible_text(),
    {
        let v = text::chars_of(&self.text);
        if self.secret && v.len() > 0 {
            let mut s = String::new();
            let mut i: usize = 0;
            while i < v.len() - 1
                invariant
                    i <= v@.len() - 1,
                    s@ == Seq::new(i as nat, |j: int| '•'),
                decreases v@.len() - i,
            {
                s.push('•');
                i += 1;
                assert(s@ =~= Seq::new(i as nat, |j: int| '•'));
            }
            s.push(v[v.len() - 1]);
            assert(s@ =~= self.visible_text());
            s
        } else {
            self.text.clone()
        }
    }

    fn push_char(&mut self, ch: char)
        ensures
            final(self).same_task(*old(self)),
            final(self)@ == (KeyboardView { text: old(self)@.typed(ch), ..old(self)@ }),
    {
        let c = if self.layer == Layer::Upper { text::to_capital(ch) } else { ch };
        if text::byte_len(&self.text) < TEXT_BYTES {
            self.text.push(c);
        }
    }

    fn rub_out(&mut self)
        ensures
            final(self).same_task(*old(self)),
            final(self)@ == (KeyboardView { text: old(self)@.rubbed(), ..old(self)@ }),
    {
        let _ = self.text.pop();
    }

    fn tap_key(&mut self, i: usize, now: u32)
        requires
            i < 12,
            old(self)@.wf(),
        ensures
            final(self).same_task(*old(self)),
            final(self)@ == old(self)@.tapped(i as int, now),
    {
        if i == 9 {
            self.layer = if self.layer == Layer::Upper { Layer::Lower } else { Layer::Upper };
            self.tap = None;
        } else if i == 11 {
            self.rub_out();
            self.tap = None;
        } else {
            let set = text::chars_of(t9_set(i));
            let mut on: Option<usize> = None;
            if let Some((k, taps, t)) = self.tap {
                if k == i && now.wrapping_sub(t) < TAP_MS {
                    on = Some((taps + 1) % set.len());
                }
            }
            match on {
                Some(k) => {
                    self.rub_out();
                    self.push_char(set[k]);
                    self.tap = Some((i, k, now));
                },
                None => {
                    self.push_char(set[0]);
                    self.tap = Some((i, 0, now));
                },
            }
        }
    }

    fn activate(&mut self, now: u32) -> (r: Action)
        requires
            old(self)@.wf(),
        ensures
            final(self).same_task(*old(self)),
            final(self)@ == old(self)@.activated(now),
            carries(
                r,
                if old(self)@.on_done() { Outcome::Accepted } else { Outcome::Redrawn },
                final(self)@.text,
            ),
    {
        let (r, c) = self.focus;
        if self.t9 {
            if r < 4 {
                self.tap_key(r * 3 + c, now);
                return Action::Redraw;
            }
            return self.action_row(c);
        }
        if r < 3 {
            let keys = text::chars_of(self.rows(r));
            let ch = if c < keys.len() { keys[c] } else { ' ' };
            self.push_char(ch);
            if self.layer == Layer::Upper {
                self.layer = Layer::Lower;
            }
            return Action::Redraw;
        }
        self.action_row(c)
    }

    fn action_row(&mut self, c: usize) -> (r: Action)
        ensures
            final(self).same_task(*old(self)),
            final(self)@ == old(self)@.acted(c as int),
            carries(r, if c >= 3 { Outcome::Accepted } else { Outcome::Redrawn }, final(self)@.text),
    {
        if c == 0 {
            self.layer = if self.layer == Layer::Symbols { Layer::Lower } else { Layer::Symbols };
            Action::Redraw
        } else if c == 1 {
            self.push_char(' ');
            Action::Redraw
        } else if c == 2 {
            self.rub_out();
            Action::Redraw
        } else {
            Action::PopWith(Result_::Text(self.text.clone()))
        }
    }

    /// Handle a key at `now` milliseconds.
    ///
    /// The two side keys walk the keys in reading order rather than jumping a whole row at a time:
    /// stepping one key at a time crosses the row ends by itself, so both directions reach every key.
    pub fn key(&mut self, ev: KeyEvent, now: u32) -> (r: Action)
        requires
            old(self)@.wf(),
        ensures
            final(self).same_task(*old(self)),
            final(self)@ == old(self)@.keyed(ev, now),
            final(self)@.wf(),
            carries(r, old(self)@.outcome(ev), final(self)@.text),
    {
        proof {
            lemma_keyed_wf(self@, ev, now);
        }
        if ev.kind == KeyKind::Release {
            return Action::Nothing;
        }
        let rows: usize = if self.t9 { 5 } else { 4 };
        let press = ev.kind == KeyKind::Press;
        let (r, c) = self.focus;
        match ev.key {
            Key::Back => {
                if press {
                    Action::PopWith(Result_::Cancel)
                } else {
                    Action::Nothing
                }
            },
            Key::Right => {
                if press {
                    return Action::PopWith(Result_::Text(self.text.clone()));
                }
                let len: usize = self.row_len(r);
                self.focus = (r, (c + 1) % len);
                Action::Redraw
            },
            Key::Left => {
                if press {
                    self.layer = if self.layer == Layer::Lower { Layer::Upper } else { Layer::Lower };
                } else {
                    let len: usize = self.row_len(r);
                    self.focus = (r, (c + len - 1) % len);
                }
                Action::Redraw
            },
            Key::Confirm => {
                if ev.kind == KeyKind::Long {
                    self.rub_out();
                    return Action::Redraw;
                }
                self.activate(now)
            },
            Key::Up => {
                if c > 0 {
                    self.focus = (r, c - 1);
                } else {
                    let nr: usize = if r == 0 { rows - 1 } else { r - 1 };
                    self.focus = (nr, self.row_len(nr) - 1);
                }
                Action::Redraw
            },
            Key::Down => {
                if c + 1 < self.row_len(r) {
                    self.focus = (r, c + 1);
                } else if r + 1 < rows {
                    self.focus = (r + 1, 0);
                } else {
                    self.focus = (0, 0);
                }
                Action::Redraw
            },
            Key::Power => Action::Nothing,
        }
    }

    /// Handle an event: text typed on the phone replaces the text, and is taken.
    pub fn event(&mut self, ev: &Event, phone_text: &mut Option<String>) -> (r: Action)
        ensures
            final(self)@ == old(self)@.heard(*ev),
            final(self).same_task(*old(self)),
            match *ev {
                Event::PhoneText(t) => r is Redraw && *final(phone_text) is None && final(self)@ == (KeyboardView {
                    text: t@,
                    ..old(self)@
                }),
                _ => r is Nothing && *final(phone_text) == *old(phone_text) && *final(self) == *old(self),
            },
    {
        if let Event::PhoneText(t) = ev {
            *phone_text = None;
            self.text = t.clone();
            return Action::Redraw;
        }
        Action::Nothing
    }
}

proof fn lemma_keyed_wf(k: KeyboardView, ev: KeyEvent, now: u32)
    requires
        k.wf(),
    ensures
        k.keyed(ev, now).wf(),
{
    reveal_strlit("1.,?");
    reveal_strlit("abc");
    reveal_strlit("def");
    reveal_strlit("ghi");
    reveal_strlit("jkl");
    reveal_strlit("mno");
    reveal_strlit("pqrs");
    reveal_strlit("tuv");
    reveal_strlit("wxyz");
    reveal_strlit("⇧");
    reveal_strlit("0 ");
    reveal_strlit("⌫");
    let len = k.row_len(k.focus.0);
    let c = k.focus.1;
    assert(0 <= (c + 1) % len < len && 0 <= (c + len - 1) % len < len) by (nonlinear_arith)
        requires
            len > 0,
    ;
    if let Some(t) = k.tap {
        let n = t9_letters(t.0).len() as int;
        let x = t.1 + 1;
        assert(0 <= x % n < n) by (nonlinear_arith)
            requires
                n > 0,
        ;
    }
}

/// The phone-typing URL for the current network state.
pub open spec fn phone_address(wifi: WifiState, hostname: Seq<char>) -> Seq<char> {
    match wifi {
        WifiState::Connected { host, .. } => "http://"@ + host@ + ".local/type"@,
        WifiState::Hotspot { ip, .. } => "http://"@ + ip@ + "/type"@,
        _ => "http://"@ + hostname + ".local/type"@,
    }
}

/// The phone-typing URL for the current network state; `hostname` is the one in the settings.
pub fn phone_url(wifi: &WifiState, hostname: &str) -> (r: String)
    ensures
        r@ == phone_address(*wifi, hostname@),
{
    match wifi {
        WifiState::Connected { host, .. } => text::join3("http://", host, ".local/type"),
        WifiState::Hotspot { ip, .. } => text::join3("http://", ip, "/type"),
        _ => text::join3("http://", hostname, ".local/type"),
    }
}

/// Down undoes Up, and Up undoes Down: stepping back and forth ends where it began, over the ends of
/// the rows and of the keyboard too, from any key of the layer shown.
pub proof fn law_up_and_down_undo_each_other(k: KeyboardView)
    requires
        k.wf(),
        k.focus.1 < k.row_len(k.focus.0),
    ensures
        (KeyboardView { focus: k.back(), ..k }).on() == k.focus,
        (KeyboardView { focus: k.on(), ..k }).back() == k.focus,
{
}

/// Where a key stands in reading order.
pub open spec fn reading_order(k: KeyboardView, focus: (int, int)) -> int {
    k.row_start(focus.0) + focus.1
}

impl KeyboardView {
    /// How many keys stand in the rows above.
    pub open spec fn row_start(self, row: int) -> int
        decreases row,
    {
        if row <= 0 {
            0
        } else {
            self.row_start(row - 1) + self.row_len(row - 1)
        }
    }
}

/// Down goes to the next key in reading order, and from the last to the first: so it reaches every
/// key of the layer.
pub proof fn law_down_reads_on(k: KeyboardView)
    requires
        k.wf(),
        k.focus.1 < k.row_len(k.focus.0),
    ensures
        reading_order(k, k.on()) == if reading_order(k, k.focus) + 1 < k.row_start(k.rows()) {
            reading_order(k, k.focus) + 1
        } else {
            0
        },
{
    reveal_with_fuel(KeyboardView::row_start, 6);
}

/// No key makes a text longer than the limit and one character.
pub proof fn law_text_stays_short(k: KeyboardView, ev: KeyEvent, now: u32)
    requires
        k.wf(),
    ensures
        k.keyed(ev, now).text.len() <= k.text.len() + 1,
        text::utf8_len(k.text) >= TEXT_BYTES ==> k.keyed(ev, now).text.len() <= k.text.len(),
{
}

/// Tapping a T9 key again in time goes through its letters and round to the first.
pub proof fn law_taps_go_round(k: KeyboardView, i: int, now: u32)
    requires
        k.wf(),
        0 <= i < 12,
        i != 9,
        i != 11,
        k.taps_on(i, now),
    ensures
        (k.tapped(i, now).tap->0).1 == if (k.tap->0).1 + 1 == t9_letters(i).len() {
            0
        } else {
            (k.tap->0).1 + 1
        },
{
    let n = t9_letters(i).len() as int;
    let x = (k.tap->0).1 + 1;
    assert(x % n == if x == n { 0 } else { x }) by (nonlinear_arith)
        requires
            0 < x <= n,
    ;
}

/// A capital stands where its small letter does, in rows as long as the keyboard counts them.
pub proof fn law_capitals_stand_over_their_letters(r: int, c: int)
    requires
        0 <= r < 3,
        0 <= c < row_size(Layer::Lower, r),
    ensures
        row_keys(Layer::Lower, r).len() == row_size(Layer::Lower, r),
        row_keys(Layer::Upper, r).len() == row_size(Layer::Upper, r),
        row_keys(Layer::Symbols, r).len() == row_size(Layer::Symbols, r),
        row_size(Layer::Upper, r) == row_size(Layer::Lower, r),
        'a' <= row_keys(Layer::Lower, r)[c] <= 'z',
        row_keys(Layer::Upper, r)[c] == text::capital(row_keys(Layer::Lower, r)[c]),
        text::capital(row_keys(Layer::Upper, r)[c]) == row_keys(Layer::Upper, r)[c],
{
    reveal_strlit("qwertyuiop");
    reveal_strlit("asdfghjkl");
    reveal_strlit("zxcvbnm");
    reveal_strlit("QWERTYUIOP");
    reveal_strlit("ASDFGHJKL");
    reveal_strlit("ZXCVBNM");
    reveal_strlit("1234567890");
    reveal_strlit("@#$%&-+()");
    reveal_strlit("*\"':;!?/");
}

/// No letter and no sign is on two keys of a layer.
pub proof fn law_every_sign_has_one_key(layer: Layer, r: int, c: int, s: int, d: int)
    requires
        0 <= r < 3,
        0 <= s < 3,
        0 <= c < row_size(layer, r),
        0 <= d < row_size(layer, s),
        row_keys(layer, r)[c] == row_keys(layer, s)[d],
    ensures
        r == s && c == d,
{
    reveal_strlit("qwertyuiop");
    reveal_strlit("asdfghjkl");
    reveal_strlit("zxcvbnm");
    reveal_strlit("QWERTYUIOP");
    reveal_strlit("ASDFGHJKL");
    reveal_strlit("ZXCVBNM");
    reveal_strlit("1234567890");
    reveal_strlit("@#$%&-+()");
    reveal_strlit("*\"':;!?/");
}

/// The number keys of the T9 keyboard hold the alphabet in order.
pub proof fn law_number_keys_hold_the_alphabet()
    ensures
        t9_letters(1) + t9_letters(2) + t9_letters(3) + t9_letters(4) + t9_letters(5) + t9_letters(6) + t9_letters(7)
            + t9_letters(8) == Seq::new(26, |i: int| (97 + i) as char),
{
    reveal_strlit("abc");
    reveal_strlit("def");
    reveal_strlit("ghi");
    reveal_strlit("jkl");
    reveal_strlit("mno");
    reveal_strlit("pqrs");
    reveal_strlit("tuv");
    reveal_strlit("wxyz");
    assert(t9_letters(1) + t9_letters(2) + t9_letters(3) + t9_letters(4) + t9_letters(5) + t9_letters(6) + t9_letters(7)
        + t9_letters(8) =~= Seq::new(26, |i: int| (97 + i) as char));
}

/// The first tap on a number key types its first letter; a tap on the same key soon after puts the next letter in
/// its place, so the text does not grow; a tap that comes late types a letter of its own.
pub proof fn law_tapping_on_changes_the_letter(k: KeyboardView, i: int, now: u32)
    requires
        k.wf(),
        0 <= i < 12,
        i != 9,
        i != 11,
        k.layer != Layer::Upper,
        text::utf8_len(k.text) < TEXT_BYTES,
    ensures
        !(k.tap matches Some(t) && t.0 == i && now.wrapping_sub(t.2) < 900) ==> k.tapped(i, now).text == k.text.push(
            t9_letters(i)[0],
        ),
        k.tap matches Some(t) && t.0 == i && now.wrapping_sub(t.2) < 900 && k.text.len() > 0 ==> k.tapped(i, now).text.len()
            <= k.text.len() && k.text.drop_last().is_prefix_of(k.tapped(i, now).text),
        k.tapped(i, now).layer == k.layer && k.tapped(i, now).focus == k.focus,
{
}

/// The shift key of the T9 keyboard changes between small letters and capitals, and its delete key takes the last
/// character away; after either the next tap types anew.
pub proof fn law_shift_and_delete_end_a_tap(k: KeyboardView, now: u32, i: int, then: u32)
    requires
        k.wf(),
        0 <= i < 12,
    ensures
        k.tapped(9, now).text == k.text,
        k.layer == Layer::Upper ==> k.tapped(9, now).layer == Layer::Lower,
        k.layer != Layer::Upper ==> k.tapped(9, now).layer == Layer::Upper,
        k.text.len() > 0 ==> k.tapped(11, now).text == k.text.drop_last(),
        k.tapped(11, now).layer == k.layer,
        !k.tapped(9, now).taps_on(i, then),
        !k.tapped(11, now).taps_on(i, then),
{
}

/// What the keys of the reader do to a keyboard: Left is shift, Right hands the text over, Back gives it up, holding
/// Confirm deletes, and holding Left or Right goes along the row. A release does nothing.
pub proof fn law_keys_of_the_keyboard(k: KeyboardView, now: u32)
    requires
        k.wf(),
    ensures
        ({
            let press = |key: Key| KeyEvent { key, kind: KeyKind::Press };
            let hold = |key: Key| KeyEvent { key, kind: KeyKind::Long };
            let up = |key: Key| KeyEvent { key, kind: KeyKind::Release };
            &&& k.keyed(press(Key::Left), now).text == k.text
            &&& k.layer == Layer::Lower ==> k.keyed(press(Key::Left), now).layer == Layer::Upper
            &&& k.layer != Layer::Lower ==> k.keyed(press(Key::Left), now).layer == Layer::Lower
            &&& k.outcome(press(Key::Right)) == Outcome::Accepted && k.keyed(press(Key::Right), now) == k
            &&& k.outcome(press(Key::Back)) == Outcome::Cancelled && k.keyed(press(Key::Back), now) == k
            &&& k.text.len() > 0 ==> k.keyed(hold(Key::Confirm), now).text == k.text.drop_last()
            &&& k.keyed(hold(Key::Confirm), now).layer == k.layer
            &&& forall|key: Key| k.outcome(#[trigger] up(key)) == Outcome::Ignored && k.keyed(up(key), now) == k
            &&& k.outcome(press(Key::Power)) == Outcome::Ignored && k.keyed(press(Key::Power), now) == k
            &&& k.keyed(press(Key::Up), now).text == k.text && k.keyed(press(Key::Down), now).text == k.text
        }),
{
}

/// Going left and then right along a row comes back, and a row goes round: as many steps as it has keys.
pub proof fn law_going_aside_comes_back(k: KeyboardView, now: u32)
    requires
        k.wf(),
        k.focus.1 < k.row_len(k.focus.0),
    ensures
        ({
            let left = KeyEvent { key: Key::Left, kind: KeyKind::Repeat };
            let right = KeyEvent { key: Key::Right, kind: KeyKind::Repeat };
            &&& k.keyed(left, now).keyed(right, now) == k
            &&& k.keyed(right, now).keyed(left, now) == k
            &&& k.focus.1 + 1 < k.row_len(k.focus.0) ==> k.keyed(right, now).focus == (k.focus.0, k.focus.1 + 1)
            &&& k.focus.1 > 0 ==> k.keyed(left, now).focus == (k.focus.0, k.focus.1 - 1)
        }),
{
    let (r, c) = k.focus;
    let n = k.row_len(r);
    lemma_round(c, n);
    lemma_round(if c + 1 < n { c + 1 } else { 0 }, n);
    lemma_round(if c > 0 { c - 1 } else { n - 1 }, n);
    let l = KeyboardView { focus: k.aside(true), ..k };
    let right = KeyboardView { focus: k.aside(false), ..k };
    assert(k.aside(true) == (r, if c > 0 { c - 1 } else { n - 1 }));
    assert(k.aside(false) == (r, if c + 1 < n { c + 1 } else { 0 }));
    assert(l.row_len(r) == n && right.row_len(r) == n);
    assert(l.aside(false) == k.focus);
    assert(right.aside(true) == k.focus);
}

proof fn lemma_round(c: int, n: int)
    requires
        0 <= c < n,
        n == 3 || n == 4 || 7 <= n <= 10,
    ensures
        (c + 1) % n == if c + 1 < n { c + 1 } else { 0 },
        (c + n - 1) % n == if c > 0 { c - 1 } else { n - 1 },
{
    if n == 3 {
        assert((c + 1) % 3 == (if c + 1 < 3 { c + 1 } else { 0 }) && (c + 2) % 3 == (if c > 0 { c - 1 } else { 2 }));
    } else if n == 4 {
        assert((c + 1) % 4 == (if c + 1 < 4 { c + 1 } else { 0 }) && (c + 3) % 4 == (if c > 0 { c - 1 } else { 3 }));
    } else if n == 7 {
        assert((c + 1) % 7 == (if c + 1 < 7 { c + 1 } else { 0 }) && (c + 6) % 7 == (if c > 0 { c - 1 } else { 6 }));
    } else if n == 8 {
        assert((c + 1) % 8 == (if c + 1 < 8 { c + 1 } else { 0 }) && (c + 7) % 8 == (if c > 0 { c - 1 } else { 7 }));
    } else if n == 9 {
        assert((c + 1) % 9 == (if c + 1 < 9 { c + 1 } else { 0 }) && (c + 8) % 9 == (if c > 0 { c - 1 } else { 8 }));
    } else {
        assert((c + 1) % 10 == (if c + 1 < 10 { c + 1 } else { 0 }) && (c + 9) % 10 == (if c > 0 { c - 1 } else { 9 }));
    }
}

impl KeyboardView {
    /// The keyboard after an event.
    pub open spec fn heard(self, ev: Event) -> KeyboardView {
        match ev {
            Event::PhoneText(t) => KeyboardView { text: t@, ..self },
            _ => self,
        }
    }
}

/// What is typed on a phone replaces the text, and nothing else of the keyboard changes; no other event changes it.
pub proof fn law_phone_text_replaces_the_text(k: KeyboardView, ev: Event)
    ensures
        ev matches Event::PhoneText(t) ==> k.heard(ev).text == t@ && k.heard(ev).layer == k.layer && k.heard(ev).focus == k.focus,
        !(ev is PhoneText) ==> k.heard(ev) == k,
{
}

/// A text that is accepted is handed to the screen below as it stands, and giving up hands nothing over.
pub proof fn law_accepted_text_is_handed_over(a: Action, o: Outcome, t: Seq<char>)
    requires
        carries(a, o, t),
    ensures
        o is Accepted ==> (a matches Action::PopWith(Result_::Text(s)) && s@ == t),
        o is Cancelled ==> a == Action::PopWith(Result_::Cancel),
        o is Redrawn ==> a is Redraw,
        o is Ignored ==> a is Nothing,
{
}

/// The address to type at: under the reader's name in the network that it joined, by number at its own access point.
pub proof fn law_phone_finds_the_keyboard(wifi: WifiState, hostname: Seq<char>)
    ensures
        wifi matches WifiState::Connected { host, .. } ==> phone_address(wifi, hostname) == "http://"@ + host@ + ".local/type"@,
        wifi matches WifiState::Hotspot { ip, .. } ==> phone_address(wifi, hostname) == "http://"@ + ip@ + "/type"@,
        !(wifi is Connected) && !(wifi is Hotspot) ==> phone_address(wifi, hostname) == "http://"@ + hostname + ".local/type"@,
        crate::routes::routed("GET"@, "/type"@) is Index,
{
    crate::routes::law_each_page_has_its_paths("GET"@, "/type"@);
}

} // verus!
