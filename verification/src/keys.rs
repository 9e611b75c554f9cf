//! The seven keys as electricity: two resistor ladders (the four keys along the bottom,
//! and the key either side of the display) plus the Power pad, decoded into
//! [`KeyEvent`]s with debouncing, long-press, repeat and release timing. The board
//! feeds samples; everything here is arithmetic on them.

use vstd::prelude::*;

use crate::input::{Key, KeyEvent, KeyKind};

verus! {

/// Group 1, the four keys along the bottom, outer left to outer right.
pub const GROUP1: [(Key, u16); 4] = [
    (Key::Left, 2620),
    (Key::Back, 1997),
    (Key::Confirm, 1096),
    (Key::Right, 0),
];

/// Group 2, the key either side of the display.
pub const GROUP2: [(Key, u16); 2] = [(Key::Up, 1666), (Key::Down, 2)];

/// Above this the ladder is idle (no key). Idle reads 3052; the nearest key is 2620.
pub const IDLE_ABOVE: u16 = 2850;

/// How far a sample may sit from a group 1 level and still count as that key. The
/// closest pair there is 623 mV apart, so the window stays under half of that.
pub const WINDOW1: u16 = 280;

/// The same for group 2, whose two levels are 1664 mV apart.
pub const WINDOW2: u16 = 700;

/// Long-press threshold.
pub const LONG_MS: u32 = 500;

/// Repeat period after a long press.
pub const REPEAT_MS: u32 = 200;

/// Samples that must agree before a change is believed.
pub const DEBOUNCE_SAMPLES: u8 = 2;

/// Calibrated ladder levels (a unit can store its own).
#[derive(Clone, Copy, Debug, PartialEq, Eq)]
pub struct Ladders {
    /// Group 1 levels.
    pub group1: [(Key, u16); 4],
    /// Group 2 levels.
    pub group2: [(Key, u16); 2],
    /// Idle threshold.
    pub idle_above: u16,
}

impl Default for Ladders {
    fn default() -> (r: Self)
        ensures
            r.group1@ == GROUP1@,
            r.group2@ == GROUP2@,
            r.idle_above == IDLE_ABOVE,
    {
        Ladders { group1: GROUP1, group2: GROUP2, idle_above: IDLE_ABOVE }
    }
}

/// How far apart two readings are.
pub open spec fn distance(a: u16, b: u16) -> int {
    if a >= b {
        a - b
    } else {
        b - a
    }
}

/// Level `i` is the one a reading of `mv` belongs to: no level is nearer, and none
/// before it is as near.
pub open spec fn nearest(levels: Seq<(Key, u16)>, mv: u16, i: int) -> bool {
    &&& 0 <= i < levels.len()
    &&& forall|j: int| #![trigger levels[j]] 0 <= j < levels.len() ==> distance(levels[i].1, mv) <= distance(levels[j].1, mv)
    &&& forall|j: int| #![trigger levels[j]] 0 <= j < i ==> distance(levels[i].1, mv) < distance(levels[j].1, mv)
}

/// What a ladder's reading means: `k` is read when the ladder is not idle and the level
/// nearest the sample is `k`'s and within the window.
pub open spec fn reads(levels: Seq<(Key, u16)>, idle_above: u16, mv: u16, window: u16, k: Key) -> bool {
    &&& mv < idle_above
    &&& exists|i: int|
        #![trigger levels[i]]
        nearest(levels, mv, i) && levels[i].0 == k && distance(levels[i].1, mv) <= window
}

/// The key a reading stands for, if any.
pub open spec fn decoded(levels: Seq<(Key, u16)>, idle_above: u16, mv: u16, window: u16) -> Option<Key> {
    if exists|k: Key| reads(levels, idle_above, mv, window, k) {
        Some(choose|k: Key| reads(levels, idle_above, mv, window, k))
    } else {
        None
    }
}

/// A reading stands for at most one key.
pub proof fn law_one_key_per_reading(levels: Seq<(Key, u16)>, idle_above: u16, mv: u16, window: u16, a: Key, b: Key)
    requires
        reads(levels, idle_above, mv, window, a),
        reads(levels, idle_above, mv, window, b),
    ensures
        a == b,
{
    let i = choose|i: int|
        #![trigger levels[i]]
        nearest(levels, mv, i) && levels[i].0 == a && distance(levels[i].1, mv) <= window;
    let j = choose|j: int|
        #![trigger levels[j]]
        nearest(levels, mv, j) && levels[j].0 == b && distance(levels[j].1, mv) <= window;
    let li = levels[i];
    let lj = levels[j];
    assert(i == j);
}

impl Ladders {
    /// Decode one group's reading: the level nearest the sample, or none when idle or
    /// farther than the window from every level.
    pub fn decode(levels: &[(Key, u16)], idle_above: u16, mv: u16, window: u16) -> (r: Option<Key>)
        ensures
            r == decoded(levels@, idle_above, mv, window),
    {
        if mv >= idle_above {
            return None;
        }
        let mut best: Option<(usize, u16)> = None;
        let mut i: usize = 0;
        while i < levels.len()
            invariant
                i <= levels.len(),
                best is None <==> i == 0,
                best matches Some((b, d)) ==> {
                    &&& b < i
                    &&& d == distance(levels@[b as int].1, mv)
                    &&& forall|j: int| #![trigger levels@[j]] 0 <= j < i ==> d <= distance(levels@[j].1, mv)
                    &&& forall|j: int| #![trigger levels@[j]] 0 <= j < b ==> d < distance(levels@[j].1, mv)
                },
            decreases levels.len() - i,
        {
            let lv: u16 = levels[i].1;
            let d: u16 = if lv >= mv {
                lv - mv
            } else {
                mv - lv
            };
            let closer = match best {
                None => true,
                Some((_, bd)) => d < bd,
            };
            if closer {
                best = Some((i, d));
            }
            i += 1;
        }
        match best {
            None => None,
            Some((b, d)) => {
                assert(nearest(levels@, mv, b as int));
                assert forall|j: int| nearest(levels@, mv, j) implies j == b by {
                    let lj = levels@[j];
                    let lb = levels@[b as int];
                }
                if d <= window {
                    proof {
                        let k = levels@[b as int].0;
                        assert(reads(levels@, idle_above, mv, window, k));
                        law_one_key_per_reading(levels@, idle_above, mv, window, k, decoded(levels@, idle_above, mv, window)->0);
                    }
                    Some(levels[b].0)
                } else {
                    None
                }
            },
        }
    }

    /// Decode group 1.
    pub fn group1(&self, mv: u16) -> (r: Option<Key>)
        ensures
            r == decoded(self.group1@, self.idle_above, mv, WINDOW1),
    {
        Self::decode(&self.group1, self.idle_above, mv, WINDOW1)
    }

    /// Decode group 2.
    pub fn group2(&self, mv: u16) -> (r: Option<Key>)
        ensures
            r == decoded(self.group2@, self.idle_above, mv, WINDOW2),
    {
        Self::decode(&self.group2, self.idle_above, mv, WINDOW2)
    }
}

/// One input: what it reads, what is believed of it, and since when.
#[derive(Clone, Copy, Debug)]
pub struct Slot {
    /// Debounced key held on this input.
    pub held: Option<Key>,
    /// Candidate from the latest samples.
    pub candidate: Option<Key>,
    /// How many samples in a row agreed on the candidate.
    pub agree: u8,
    /// When the held key went down.
    pub down_at: u32,
    /// Long press already fired.
    pub long: bool,
    /// Last repeat time.
    pub last_repeat: u32,
}

impl Slot {
    /// The slot once a sample has been weighed: a new reading starts counting afresh, the
    /// same reading again counts one more.
    pub open spec fn weighed(self, read: Option<Key>) -> Slot {
        if read != self.candidate {
            Slot { candidate: read, agree: 1, ..self }
        } else if self.agree < DEBOUNCE_SAMPLES {
            Slot { agree: (self.agree + 1) as u8, ..self }
        } else {
            self
        }
    }

    /// What is believed to be held: the candidate once enough samples agreed.
    pub open spec fn believed(self) -> Option<Key> {
        if self.agree >= DEBOUNCE_SAMPLES {
            self.candidate
        } else {
            self.held
        }
    }

    /// How letting go of `k` is reported.
    pub open spec fn let_go(self, k: Key) -> KeyEvent {
        KeyEvent { key: k, kind: if self.long { KeyKind::Release } else { KeyKind::Press } }
    }

    /// The slot after a sample read at `now`.
    pub open spec fn next(self, read: Option<Key>, now: u32) -> Slot {
        let s = self.weighed(read);
        match (s.held, s.believed()) {
            (None, None) => s,
            (Some(_), None) => Slot { held: None, ..s },
            (Some(a), Some(b)) if a == b => {
                if !s.long && now.wrapping_sub(s.down_at) >= LONG_MS {
                    Slot { long: true, last_repeat: now, ..s }
                } else if s.long && now.wrapping_sub(s.last_repeat) >= REPEAT_MS {
                    Slot { last_repeat: now, ..s }
                } else {
                    s
                }
            },
            (_, Some(k)) => Slot { held: Some(k), down_at: now, long: false, ..s },
        }
    }

    /// The event a sample read at `now` fires, if any.
    pub open spec fn fires(self, read: Option<Key>, now: u32) -> Option<KeyEvent> {
        let s = self.weighed(read);
        match (s.held, s.believed()) {
            (None, _) => None,
            (Some(a), Some(b)) if a == b => {
                if !s.long && now.wrapping_sub(s.down_at) >= LONG_MS {
                    Some(KeyEvent { key: a, kind: KeyKind::Long })
                } else if s.long && now.wrapping_sub(s.last_repeat) >= REPEAT_MS {
                    Some(KeyEvent { key: a, kind: KeyKind::Repeat })
                } else {
                    None
                }
            },
            (Some(a), _) => Some(s.let_go(a)),
        }
    }

    /// An input nothing has touched.
    pub open spec fn untouched() -> Slot {
        Slot { held: None, candidate: None, agree: 0, down_at: 0, long: false, last_repeat: 0 }
    }

    fn new() -> (r: Slot)
        ensures
            r == Slot::untouched(),
    {
        Slot { held: None, candidate: None, agree: 0, down_at: 0, long: false, last_repeat: 0 }
    }

    /// Weigh one sample, move on, and say what fired.
    fn sample(&mut self, read: Option<Key>, now_ms: u32) -> (r: Option<KeyEvent>)
        ensures
            *final(self) == old(self).next(read, now_ms),
            r == old(self).fires(read, now_ms),
    {
        if read != self.candidate {
            self.candidate = read;
            self.agree = 1;
        } else if self.agree < DEBOUNCE_SAMPLES {
            self.agree = self.agree + 1;
        }
        let believed = if self.agree >= DEBOUNCE_SAMPLES {
            self.candidate
        } else {
            self.held
        };
        match (self.held, believed) {
            (None, Some(k)) => {
                self.held = Some(k);
                self.down_at = now_ms;
                self.long = false;
                None
            },
            (Some(k), None) => {
                self.held = None;
                Some(if self.long { KeyEvent { key: k, kind: KeyKind::Release } } else { KeyEvent::press(k) })
            },
            (Some(k), Some(k2)) => {
                if k != k2 {
                    // Slid from one ladder key to another: release the first, start the second.
                    let ev = if self.long { KeyEvent { key: k, kind: KeyKind::Release } } else { KeyEvent::press(k) };
                    self.held = Some(k2);
                    self.down_at = now_ms;
                    self.long = false;
                    Some(ev)
                } else if !self.long && now_ms.wrapping_sub(self.down_at) >= LONG_MS {
                    self.long = true;
                    self.last_repeat = now_ms;
                    Some(KeyEvent::long(k))
                } else if self.long && now_ms.wrapping_sub(self.last_repeat) >= REPEAT_MS {
                    self.last_repeat = now_ms;
                    Some(KeyEvent { key: k, kind: KeyKind::Repeat })
                } else {
                    None
                }
            },
            (None, None) => None,
        }
    }
}

/// `heapless::Vec`: a vector of at most `N` items held in place.
#[verifier::external_type_specification]
#[verifier::external_body]
#[verifier::reject_recursive_types(T)]
pub struct ExHeaplessVec<T, const N: usize>(heapless::Vec<T, N>);

/// The events a fixed-capacity buffer holds, oldest first.
pub uninterp spec fn events_in(v: heapless::Vec<KeyEvent, 6>) -> Seq<KeyEvent>;

/// `heapless::Vec::new`: a buffer with nothing in it.
#[verifier::external_body]
fn events_new() -> (r: heapless::Vec<KeyEvent, 6>)
    ensures
        events_in(r) == Seq::<KeyEvent>::empty(),
{
    heapless::Vec::new()
}

/// `heapless::Vec::push`: the item goes to the back while there is room, and comes back
/// with the buffer unchanged when there is none.
#[verifier::external_body]
fn events_push(v: &mut heapless::Vec<KeyEvent, 6>, ev: KeyEvent) -> (r: Result<(), KeyEvent>)
    ensures
        r is Ok <==> events_in(*old(v)).len() < 6,
        r matches Err(back) ==> back == ev,
        r is Ok ==> events_in(*final(v)) == events_in(*old(v)).push(ev),
        r is Err ==> events_in(*final(v)) == events_in(*old(v)),
{
    v.push(ev)
}

/// The events of a list of inputs, in their order.
pub open spec fn fired(each: Seq<Option<KeyEvent>>) -> Seq<KeyEvent>
    decreases each.len(),
{
    if each.len() == 0 {
        Seq::empty()
    } else {
        match each.last() {
            Some(ev) => fired(each.drop_last()).push(ev),
            None => fired(each.drop_last()),
        }
    }
}

/// The key state machine for all three inputs.
#[derive(Clone, Debug)]
pub struct KeyMachine {
    /// The three inputs: the bottom ladder, the side ladder, the Power pad.
    pub slots: [Slot; 3],
    /// Ladder calibration.
    pub ladders: Ladders,
}

impl KeyMachine {
    /// What the three inputs read in one sample.
    pub open spec fn reads(&self, g1_mv: u16, g2_mv: u16, power: bool) -> Seq<Option<Key>> {
        seq![
            decoded(self.ladders.group1@, self.ladders.idle_above, g1_mv, WINDOW1),
            decoded(self.ladders.group2@, self.ladders.idle_above, g2_mv, WINDOW2),
            if power { Some(Key::Power) } else { None },
        ]
    }

    /// New with default calibration.
    pub fn new() -> (r: Self)
        ensures
            r.slots@ == seq![Slot::untouched(), Slot::untouched(), Slot::untouched()],
            r.ladders.group1@ == GROUP1@,
            r.ladders.group2@ == GROUP2@,
            r.ladders.idle_above == IDLE_ABOVE,
    {
        let r = KeyMachine { slots: [Slot::new(), Slot::new(), Slot::new()], ladders: Ladders::default() };
        assert(r.slots@ =~= seq![Slot::untouched(), Slot::untouched(), Slot::untouched()]);
        r
    }

    /// Feed one sample set (group 1 mV, group 2 mV, Power pressed) at `now_ms`; returns the
    /// events that fired, at most one per input, in the order of the inputs.
    pub fn sample(&mut self, g1_mv: u16, g2_mv: u16, power: bool, now_ms: u32) -> (out: heapless::Vec<KeyEvent, 6>)
        ensures
            final(self).ladders == old(self).ladders,
            final(self).slots@.len() == 3,
            forall|i: int|
                #![trigger final(self).slots@[i]]
                0 <= i < 3 ==> final(self).slots@[i] == old(self).slots@[i].next(
                    old(self).reads(g1_mv, g2_mv, power)[i],
                    now_ms,
                ),
            events_in(out) == fired(
                Seq::new(3, |i: int| old(self).slots@[i].fires(old(self).reads(g1_mv, g2_mv, power)[i], now_ms)),
            ),
    {
        let mut out = events_new();
        let reads: [Option<Key>; 3] = [
            self.ladders.group1(g1_mv),
            self.ladders.group2(g2_mv),
            if power { Some(Key::Power) } else { None },
        ];
        let ghost before = self.slots@;
        let ghost each = Seq::new(3, |i: int| before[i].fires(reads@[i], now_ms));
        assert(reads@ =~= old(self).reads(g1_mv, g2_mv, power));
        let mut i: usize = 0;
        while i < 3
            invariant
                i <= 3,
                before.len() == 3,
                self.slots@.len() == 3,
                self.ladders == old(self).ladders,
                each == Seq::new(3, |j: int| before[j].fires(reads@[j], now_ms)),
                forall|j: int| #![trigger self.slots@[j]] i <= j < 3 ==> self.slots@[j] == before[j],
                forall|j: int| #![trigger self.slots@[j]] 0 <= j < i ==> self.slots@[j] == before[j].next(reads@[j], now_ms),
                events_in(out) == fired(each.take(i as int)),
                events_in(out).len() <= i,
            decreases 3 - i,
        {
            let mut slot: Slot = self.slots[i];
            let ev = slot.sample(reads[i], now_ms);
            self.slots[i] = slot;
            assert(each.take(i + 1).drop_last() =~= each.take(i as int));
            if let Some(ev) = ev {
                let _ = events_push(&mut out, ev);
            }
            i += 1;
        }
        assert(each.take(3) =~= each);
        out
    }

    /// Whether any key is currently held (keeps the device out of light sleep).
    pub fn any_held(&self) -> (r: bool)
        ensures
            r == exists|i: int| #![trigger self.slots@[i]] 0 <= i < 3 && self.slots@[i].held is Some,
    {
        self.slots[0].held.is_some() || self.slots[1].held.is_some() || self.slots[2].held.is_some()
    }

    /// Whether any input read as pressed in the last sample, before debounce believed it.
    ///
    /// The nap between page turns ends on this rather than on [`KeyMachine::any_held`]:
    /// one sample showing contact is enough to bring the loop back to full speed.
    pub fn any_touched(&self) -> (r: bool)
        ensures
            r == exists|i: int|
                #![trigger self.slots@[i]]
                0 <= i < 3 && (self.slots@[i].held is Some || self.slots@[i].candidate is Some),
    {
        let mut i: usize = 0;
        while i < 3
            invariant
                i <= 3,
                self.slots@.len() == 3,
                forall|j: int|
                    #![trigger self.slots@[j]]
                    0 <= j < i ==> self.slots@[j].held is None && self.slots@[j].candidate is None,
            decreases 3 - i,
        {
            if self.slots[i].held.is_some() || self.slots[i].candidate.is_some() {
                assert(self.slots@[i as int].held is Some || self.slots@[i as int].candidate is Some);
                return true;
            }
            i += 1;
        }
        false
    }

    /// Whether Power is held right now.
    pub fn power_held(&self) -> (r: bool)
        ensures
            r == (self.slots@[2].held == Some(Key::Power)),
    {
        match self.slots[2].held {
            Some(k) => k == Key::Power,
            None => false,
        }
    }
}

impl Default for KeyMachine {
    fn default() -> (r: Self)
        ensures
            r.slots@ == seq![Slot::untouched(), Slot::untouched(), Slot::untouched()],
            r.ladders.group1@ == GROUP1@,
            r.ladders.group2@ == GROUP2@,
            r.ladders.idle_above == IDLE_ABOVE,
    {
        KeyMachine::new()
    }
}

/// One stray sample neither presses nor lets go of a key: what is held stays held, and
/// nothing but the long press or the repeat of the held key can fire.
pub proof fn law_one_stray_sample_changes_nothing(s: Slot, read: Option<Key>, now: u32)
    requires
        read != s.candidate,
    ensures
        s.next(read, now).held == s.held,
        s.fires(read, now) matches Some(ev) ==> Some(ev.key) == s.held && (ev.kind is Long || ev.kind is Repeat),
{
}

/// Two samples in a row that read alike are believed.
pub proof fn law_two_samples_are_believed(s: Slot, read: Option<Key>, first: u32, second: u32)
    ensures
        s.next(read, first).next(read, second).held == read,
{
}

/// Contact shows in the very sample that reads it, before it is believed.
pub proof fn law_contact_shows_at_once(s: Slot, read: Option<Key>, now: u32)
    ensures
        s.next(read, now).candidate == read,
{
}

/// A key that is let go of fires once: a press if the hold was short, a release if its long
/// press already fired. While it stays held, neither can fire.
pub proof fn law_letting_go_fires_once(s: Slot, read: Option<Key>, now: u32, k: Key)
    requires
        s.held == Some(k),
    ensures
        s.next(read, now).held != s.held <==> (s.fires(read, now) matches Some(ev) && (ev.kind is Press || ev.kind is Release)),
        s.next(read, now).held != s.held && !s.long ==> s.fires(read, now) == Some(KeyEvent { key: k, kind: KeyKind::Press }),
        s.next(read, now).held != s.held && s.long ==> s.fires(read, now) == Some(KeyEvent { key: k, kind: KeyKind::Release }),
{
}

/// The long press of a hold fires at most once, and repeats come only after it.
pub proof fn law_long_press_fires_once(s: Slot, read: Option<Key>, now: u32)
    ensures
        s.fires(read, now) matches Some(ev) ==> (ev.kind is Long ==> !s.long && s.next(read, now).long) && (ev.kind is Repeat ==> s.long),
        s.long && s.next(read, now).held == s.held ==> s.next(read, now).long,
{
}

/// Going down fires nothing: a key speaks when it is let go of or held long.
pub proof fn law_going_down_is_silent(s: Slot, read: Option<Key>, now: u32)
    requires
        s.held is None,
    ensures
        s.fires(read, now) is None,
        s.next(read, now).held is Some ==> s.next(read, now).down_at == now && !s.next(read, now).long,
{
}

/// Each input fires at most one event per sample.
pub proof fn law_one_event_per_input(each: Seq<Option<KeyEvent>>)
    ensures
        fired(each).len() <= each.len(),
    decreases each.len(),
{
    if each.len() > 0 {
        law_one_event_per_input(each.drop_last());
    }
}

impl Slot {
    /// The key held whose long press fired, if there is one.
    pub open spec fn held_long(self) -> Option<Key> {
        if self.long {
            self.held
        } else {
            None
        }
    }

    /// The slot by a clock that is `d` milliseconds ahead.
    pub open spec fn by_clock(self, d: u32) -> Slot {
        Slot { down_at: self.down_at.wrapping_add(d), last_repeat: self.last_repeat.wrapping_add(d), ..self }
    }

    /// What a run of samples, each with its time, fires on this input.
    pub open spec fn run(self, samples: Seq<(Option<Key>, u32)>) -> Seq<KeyEvent>
        decreases samples.len(),
    {
        if samples.len() == 0 {
            Seq::empty()
        } else {
            let (read, now) = samples[0];
            (match self.fires(read, now) {
                Some(ev) => seq![ev],
                None => Seq::empty(),
            }) + self.next(read, now).run(samples.skip(1))
        }
    }
}

/// Whether events come as holds make them, one hold after the other: a press, or a long press, then repeats of
/// the same key, then its release. `long` is the key whose long press is out already.
pub open spec fn are_holds(long: Option<Key>, events: Seq<KeyEvent>) -> bool
    decreases events.len(),
{
    if events.len() == 0 {
        true
    } else {
        let (ev, rest) = (events[0], events.skip(1));
        match ev.kind {
            KeyKind::Press => long is None && are_holds(None, rest),
            KeyKind::Long => long is None && are_holds(Some(ev.key), rest),
            KeyKind::Repeat => long == Some(ev.key) && are_holds(long, rest),
            KeyKind::Release => long == Some(ev.key) && are_holds(None, rest),
        }
    }
}

/// Whatever an input reads, its events come as holds make them.
pub proof fn law_events_come_as_holds(s: Slot, samples: Seq<(Option<Key>, u32)>)
    ensures
        are_holds(s.held_long(), s.run(samples)),
    decreases samples.len(),
{
    if samples.len() > 0 {
        let (read, now) = samples[0];
        let rest = s.next(read, now).run(samples.skip(1));
        law_events_come_as_holds(s.next(read, now), samples.skip(1));
        if let Some(ev) = s.fires(read, now) {
            assert((seq![ev] + rest).skip(1) =~= rest);
            assert((seq![ev] + rest)[0] == ev);
        } else {
            assert(Seq::<KeyEvent>::empty() + rest =~= rest);
        }
    }
}

/// When the clock started does not matter: the same run by a clock that is ahead, round its end too, fires the
/// same.
pub proof fn law_clock_start_does_not_matter(s: Slot, samples: Seq<(Option<Key>, u32)>, d: u32)
    ensures
        s.by_clock(d).run(samples.map_values(|x: (Option<Key>, u32)| (x.0, x.1.wrapping_add(d)))) == s.run(samples),
    decreases samples.len(),
{
    let ahead = |x: (Option<Key>, u32)| (x.0, x.1.wrapping_add(d));
    if samples.len() > 0 {
        let (read, now) = samples[0];
        assert(now.wrapping_add(d).wrapping_sub(s.down_at.wrapping_add(d)) == now.wrapping_sub(s.down_at));
        assert(now.wrapping_add(d).wrapping_sub(s.last_repeat.wrapping_add(d)) == now.wrapping_sub(s.last_repeat));
        assert(samples.map_values(ahead).skip(1) =~= samples.skip(1).map_values(ahead));
        assert(s.by_clock(d).fires(read, now.wrapping_add(d)) == s.fires(read, now));
        assert(s.by_clock(d).next(read, now.wrapping_add(d)) == s.next(read, now).by_clock(d));
        law_clock_start_does_not_matter(s.next(read, now), samples.skip(1), d);
    }
}

proof fn lemma_stale_times(a: Slot, b: Slot, samples: Seq<(Option<Key>, u32)>)
    requires
        b == (Slot { down_at: b.down_at, last_repeat: b.last_repeat, ..a }),
        a.held is Some ==> a.down_at == b.down_at,
        a.held is Some && a.long ==> a.last_repeat == b.last_repeat,
    ensures
        a.run(samples) == b.run(samples),
    decreases samples.len(),
{
    if samples.len() > 0 {
        let (read, now) = samples[0];
        lemma_stale_times(a.next(read, now), b.next(read, now), samples.skip(1));
    }
}

/// Nor does it from the start: an input nothing has touched fires the same by any clock.
pub proof fn law_untouched_by_any_clock(samples: Seq<(Option<Key>, u32)>, d: u32)
    ensures
        Slot::untouched().run(samples.map_values(|x: (Option<Key>, u32)| (x.0, x.1.wrapping_add(d))))
            == Slot::untouched().run(samples),
{
    let s = Slot::untouched();
    law_clock_start_does_not_matter(s, samples, d);
    lemma_stale_times(s, s.by_clock(d), samples.map_values(|x: (Option<Key>, u32)| (x.0, x.1.wrapping_add(d))));
}

/// A reading at the level of a key is that key, where the levels differ and are below the idle one; a reading at or
/// above the idle level is no key, and so is one further than the window from every level.
pub proof fn law_keys_read_at_their_levels(levels: Seq<(Key, u16)>, idle_above: u16, i: int, mv: u16, window: u16)
    requires
        0 <= i < levels.len(),
        levels[i].1 < idle_above,
        forall|a: int, b: int| 0 <= a < b < levels.len() ==> (#[trigger] levels[a]).1 != (#[trigger] levels[b]).1,
    ensures
        decoded(levels, idle_above, levels[i].1, window) == Some(levels[i].0),
        mv >= idle_above ==> decoded(levels, idle_above, mv, window) is None,
        (forall|j: int| 0 <= j < levels.len() ==> distance((#[trigger] levels[j]).1, mv) > window) ==> decoded(
            levels,
            idle_above,
            mv,
            window,
        ) is None,
{
    let at = levels[i].1;
    assert(nearest(levels, at, i)) by {
        assert forall|j: int| #![trigger levels[j]] 0 <= j < i implies distance(levels[i].1, at) < distance(levels[j].1, at) by {
            assert(levels[j].1 != levels[i].1);
        }
    }
    assert(reads(levels, idle_above, at, window, levels[i].0));
    let k = choose|k: Key| reads(levels, idle_above, at, window, k);
    law_one_key_per_reading(levels, idle_above, at, window, levels[i].0, k);
}

/// A reading that decodes to a key is near that key's level, and no other key is nearer.
pub proof fn law_readings_go_to_the_nearest_key(levels: Seq<(Key, u16)>, idle_above: u16, mv: u16, window: u16, j: int)
    requires
        decoded(levels, idle_above, mv, window) is Some,
        0 <= j < levels.len(),
    ensures
        exists|i: int|
            0 <= i < levels.len() && (#[trigger] levels[i]).0 == decoded(levels, idle_above, mv, window)->0 && distance(
                levels[i].1,
                mv,
            ) <= window && distance(levels[i].1, mv) <= distance(levels[j].1, mv),
{
    let k = choose|k: Key| reads(levels, idle_above, mv, window, k);
    let i = choose|i: int|
        #![trigger levels[i]]
        nearest(levels, mv, i) && levels[i].0 == k && distance(levels[i].1, mv) <= window;
    assert(levels[i].0 == k);
}

/// Samples that all read the same, the second `gap` milliseconds after the first.
pub open spec fn two_samples(read: Option<Key>, at: u32, gap: u32) -> Seq<(Option<Key>, u32)> {
    seq![(read, at), (read, at.wrapping_add(gap))]
}

/// A key that is put down and let go of within half a second is one short press of that key; one held for half a
/// second is a long press as soon as that is over.
pub proof fn law_short_holds_are_presses(k: Key, at: u32, held: u32)
    requires
        held < 0x1000_0000,
    ensures
        ({
            let down = Slot::untouched().next(Some(k), at).next(Some(k), at.wrapping_add(10));
            let then = at.wrapping_add(10).wrapping_add(held);
            &&& Slot::untouched().run(two_samples(Some(k), at, 10)).len() == 0
            &&& down.held == Some(k)
            &&& held < 490 ==> down.run(two_samples(None, then, 10)) == seq![KeyEvent { key: k, kind: KeyKind::Press }]
            &&& held < 500 ==> down.fires(Some(k), then) is None
            &&& held >= 500 ==> down.fires(Some(k), then) == Some(KeyEvent { key: k, kind: KeyKind::Long })
        }),
{
    reveal_with_fuel(Slot::run, 3);
    let s = Slot::untouched();
    let first = two_samples(Some(k), at, 10);
    assert(first.skip(1) =~= seq![(Some(k), at.wrapping_add(10))]);
    assert(first.skip(1).skip(1) =~= Seq::empty());
    let down = s.next(Some(k), at).next(Some(k), at.wrapping_add(10));
    let then = at.wrapping_add(10).wrapping_add(held);
    assert(then.wrapping_sub(at.wrapping_add(10)) == held);
    let up = two_samples(None, then, 10);
    assert(up.skip(1) =~= seq![(None, then.wrapping_add(10))]);
    assert(up.skip(1).skip(1) =~= Seq::empty());
    if held + 10 < 500 {
        assert(down.down_at == at.wrapping_add(10) && !down.long);
        assert(down.fires(None, then) is None);
        let mid = down.next(None, then);
        assert(mid.fires(None, then.wrapping_add(10)) == Some(KeyEvent { key: k, kind: KeyKind::Press }));
        assert(down.run(up) =~= seq![KeyEvent { key: k, kind: KeyKind::Press }]);
    }
}

/// A key that stays held repeats, each time a fifth of a second after the last.
pub proof fn law_held_keys_repeat(s: Slot, k: Key, now: u32)
    requires
        s.held == Some(k),
        s.candidate == Some(k),
        s.agree >= 2,
        s.long,
    ensures
        now.wrapping_sub(s.last_repeat) >= 200 ==> s.fires(Some(k), now) == Some(KeyEvent { key: k, kind: KeyKind::Repeat })
            && s.next(Some(k), now).last_repeat == now,
        now.wrapping_sub(s.last_repeat) < 200 ==> s.fires(Some(k), now) is None && s.next(Some(k), now) == s,
{
}

/// The keys of the reader as they are wired: four on one ladder and two on the other, each read at its own level, and no
/// key where none is down.
pub proof fn law_each_key_is_read_at_its_level(mv: u16)
    ensures
        decoded(GROUP1@, IDLE_ABOVE, 2620, WINDOW1) == Some(Key::Left),
        decoded(GROUP1@, IDLE_ABOVE, 1997, WINDOW1) == Some(Key::Back),
        decoded(GROUP1@, IDLE_ABOVE, 1096, WINDOW1) == Some(Key::Confirm),
        decoded(GROUP1@, IDLE_ABOVE, 0, WINDOW1) == Some(Key::Right),
        decoded(GROUP2@, IDLE_ABOVE, 1666, WINDOW2) == Some(Key::Up),
        decoded(GROUP2@, IDLE_ABOVE, 2, WINDOW2) == Some(Key::Down),
        mv >= 2850 ==> decoded(GROUP1@, IDLE_ABOVE, mv, WINDOW1) is None && decoded(GROUP2@, IDLE_ABOVE, mv, WINDOW2) is None,
{
    let a = GROUP1@;
    let b = GROUP2@;
    assert(a[0] == (Key::Left, 2620u16) && a[1] == (Key::Back, 1997u16) && a[2] == (Key::Confirm, 1096u16) && a[3] == (Key::Right, 0u16));
    assert(b[0] == (Key::Up, 1666u16) && b[1] == (Key::Down, 2u16));
    law_keys_read_at_their_levels(a, IDLE_ABOVE, 0, mv, WINDOW1);
    law_keys_read_at_their_levels(a, IDLE_ABOVE, 1, mv, WINDOW1);
    law_keys_read_at_their_levels(a, IDLE_ABOVE, 2, mv, WINDOW1);
    law_keys_read_at_their_levels(a, IDLE_ABOVE, 3, mv, WINDOW1);
    law_keys_read_at_their_levels(b, IDLE_ABOVE, 0, mv, WINDOW2);
    law_keys_read_at_their_levels(b, IDLE_ABOVE, 1, mv, WINDOW2);
}

/// The machine looks at each ladder with the levels and the window that belong to it, and at Power by itself.
pub proof fn law_each_ladder_has_its_window(m: KeyMachine, g1_mv: u16, g2_mv: u16, power: bool)
    ensures
        m.reads(g1_mv, g2_mv, power).len() == 3,
        m.reads(g1_mv, g2_mv, power)[0] == decoded(m.ladders.group1@, m.ladders.idle_above, g1_mv, 280),
        m.reads(g1_mv, g2_mv, power)[1] == decoded(m.ladders.group2@, m.ladders.idle_above, g2_mv, 700),
        power <==> m.reads(g1_mv, g2_mv, power)[2] == Some(Key::Power),
        !power ==> m.reads(g1_mv, g2_mv, power)[2] is None,
{
}

/// Every event of a sample is handed out, in the order of the inputs, and nothing else.
pub proof fn law_every_event_is_handed_out(each: Seq<Option<KeyEvent>>, ev: KeyEvent)
    ensures
        fired(each).contains(ev) <==> each.contains(Some(ev)),
        each.len() == 2 && each[0] is Some && each[1] is Some ==> fired(each) == seq![each[0]->0, each[1]->0],
    decreases each.len(),
{
    reveal_with_fuel(fired, 3);
    if each.len() > 0 {
        let front = each.drop_last();
        law_every_event_is_handed_out(front, ev);
        if each.contains(Some(ev)) {
            let k = choose|k: int| 0 <= k < each.len() && each[k] == Some(ev);
            if k < front.len() {
                assert(front[k] == Some(ev));
                let j = choose|j: int| 0 <= j < fired(front).len() && fired(front)[j] == ev;
                assert(fired(each)[j] == ev);
            } else {
                assert(fired(each)[fired(each).len() - 1] == ev);
            }
        }
        if fired(each).contains(ev) {
            let j = choose|j: int| 0 <= j < fired(each).len() && fired(each)[j] == ev;
            if j < fired(front).len() {
                assert(fired(front)[j] == ev);
                let k = choose|k: int| 0 <= k < front.len() && front[k] == Some(ev);
                assert(each[k] == Some(ev));
            } else {
                assert(each[each.len() - 1] == Some(ev));
            }
        }
    }
}

} // verus!
