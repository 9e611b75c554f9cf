//! The seven keys, what happens to them, and how the panel answers.

use vstd::prelude::*;

verus! {

/// The seven keys.
#[derive(Clone, Copy, Debug, PartialEq, Eq, Structural, Hash)]
pub enum Key {
    /// Bottom, outer left.
    Left,
    /// Bottom, inner left.
    Back,
    /// Bottom, inner right.
    Confirm,
    /// Bottom, outer right.
    Right,
    /// The side key left of the display. Named for what it does to a list or a
    /// page, not for where it sits.
    Up,
    /// The side key right of the display.
    Down,
    /// Top.
    Power,
}

/// What happened to a key.
#[derive(Clone, Copy, Debug, PartialEq, Eq, Structural)]
pub enum KeyKind {
    /// Pressed and released before the long-press threshold.
    Press,
    /// Held past the long-press threshold (fires once).
    Long,
    /// Still held: fires again and again after the long press.
    Repeat,
    /// Released after a Long (or Repeats).
    Release,
}

/// A key event.
#[derive(Clone, Copy, Debug, PartialEq, Eq, Structural)]
pub struct KeyEvent {
    /// The key.
    pub key: Key,
    /// What happened.
    pub kind: KeyKind,
}

impl KeyEvent {
    /// A short press.
    pub fn press(key: Key) -> (r: KeyEvent)
        ensures
            r == (KeyEvent { key, kind: KeyKind::Press }),
    {
        KeyEvent { key, kind: KeyKind::Press }
    }

    /// A long press.
    pub fn long(key: Key) -> (r: KeyEvent)
        ensures
            r == (KeyEvent { key, kind: KeyKind::Long }),
    {
        KeyEvent { key, kind: KeyKind::Long }
    }

    /// True for a short press of `key`.
    pub fn is(&self, key: Key) -> (r: bool)
        ensures
            r == (self.key == key && self.kind == KeyKind::Press),
    {
        self.key == key && self.kind == KeyKind::Press
    }

    /// True for a long press of `key`.
    pub fn is_long(&self, key: Key) -> (r: bool)
        ensures
            r == (self.key == key && self.kind == KeyKind::Long),
    {
        self.key == key && self.kind == KeyKind::Long
    }
}

/// How the panel should refresh after a draw.
#[derive(Clone, Copy, Debug, PartialEq, Eq, Structural)]
pub enum Refresh {
    /// Nothing changed.
    Nothing,
    /// Partial (DU) refresh, no flash.
    Du,
    /// Full (GC) refresh with a black-white flash.
    Gc,
}

impl Refresh {
    /// How strong a refresh is: nothing, partial, full.
    pub open spec fn rank(self) -> int {
        match self {
            Refresh::Nothing => 0,
            Refresh::Du => 1,
            Refresh::Gc => 2,
        }
    }

    /// The stronger of two refreshes.
    pub open spec fn stronger(self, other: Refresh) -> Refresh {
        if self.rank() >= other.rank() {
            self
        } else {
            other
        }
    }

    /// The stronger of two refreshes.
    pub fn max(self, other: Refresh) -> (r: Refresh)
        ensures
            r == self.stronger(other),
    {
        match (self, other) {
            (Refresh::Gc, _) => Refresh::Gc,
            (_, Refresh::Gc) => Refresh::Gc,
            (Refresh::Du, _) => Refresh::Du,
            (_, Refresh::Du) => Refresh::Du,
            _ => Refresh::Nothing,
        }
    }
}

} // verus!
