use quire::input::{Key, KeyEvent, KeyKind, Refresh};
use quire::keys::{KeyMachine, Ladders};

fn run(m: &mut KeyMachine, samples: &[(u16, u16, bool)], step: u32) -> Vec<KeyEvent> {
    let mut out = Vec::new();
    for (i, (a, b, p)) in samples.iter().enumerate() {
        out.extend(m.sample(*a, *b, *p, i as u32 * step));
    }
    out
}

#[test]
fn decodes_ladders() {
    let l = Ladders::default();
    // The readings an X3 actually gives, key by key.
    assert_eq!(l.group1(2620), Some(Key::Left));
    assert_eq!(l.group1(1997), Some(Key::Back));
    assert_eq!(l.group1(1096), Some(Key::Confirm));
    assert_eq!(l.group1(0), Some(Key::Right));
    assert_eq!(l.group2(1666), Some(Key::Up));
    assert_eq!(l.group2(2), Some(Key::Down));
    // Idle is 3052 on both ladders and must read as no key at all: this is the
    // reading that used to come back as Confirm held down for ever.
    assert_eq!(l.group1(3052), None);
    assert_eq!(l.group2(3052), None);
    assert_eq!(l.group1(4095), None);
    // Neighbours are 623 mV apart, so the midpoint between them belongs to neither.
    assert_eq!(l.group1((2620 + 1997) / 2), None);
}

#[test]
fn short_press_needs_debounce() {
    let mut m = KeyMachine::new();
    // One noisy sample does nothing; two agreeing samples press, two idle release.
    let ev = run(&mut m, &[(1096, 4095, false), (4095, 4095, false), (4095, 4095, false)], 10);
    assert!(ev.is_empty());
    let ev = run(&mut m, &[(1096, 4095, false), (1096, 4095, false), (4095, 4095, false), (4095, 4095, false)], 10);
    assert_eq!(ev, [KeyEvent::press(Key::Confirm)]);
}

#[test]
fn long_press_repeats_and_releases() {
    let mut m = KeyMachine::new();
    let mut samples: Vec<(u16, u16, bool)> = vec![(5, 4095, false); 100]; // 1 s held
    samples.extend([(4095, 4095, false), (4095, 4095, false)]);
    let ev = run(&mut m, &samples, 10);
    assert_eq!(ev[0], KeyEvent::long(Key::Right));
    let repeats = ev.iter().filter(|e| e.kind == KeyKind::Repeat).count();
    assert!((2..=3).contains(&repeats), "{repeats} repeats in 500 ms");
    assert_eq!(*ev.last().unwrap(), KeyEvent { key: Key::Right, kind: KeyKind::Release });
    assert!(!ev.iter().any(|e| e.kind == KeyKind::Press));
}

#[test]
fn a_tap_that_starts_during_a_nap_is_not_missed() {
    // Idle sampling naps in 25 ms slices; the first sample that sees contact reports
    // `any_touched`, which is what returns the loop to 10 ms sampling. The two
    // agreeing samples a press needs are then taken at the usual spacing, so a tap
    // that began inside a nap still presses.
    let mut m = KeyMachine::new();
    let mut out = Vec::new();
    let mut t = 0u32;
    for _ in 0..2 {
        out.extend(m.sample(4095, 4095, false, t));
        assert!(!m.any_touched());
        t += 25;
    }
    out.extend(m.sample(1096, 4095, false, t));
    assert!(m.any_touched(), "first contact has to end the nap");
    for _ in 0..4 {
        t += 10;
        out.extend(m.sample(1096, 4095, false, t));
    }
    for _ in 0..2 {
        t += 10;
        out.extend(m.sample(4095, 4095, false, t));
    }
    assert_eq!(out, [KeyEvent::press(Key::Confirm)]);
}

#[test]
fn power_and_side_keys_are_independent() {
    let mut m = KeyMachine::new();
    let ev = run(&mut m, &[(4095, 1666, true), (4095, 1666, true), (4095, 4095, false), (4095, 4095, false)], 10);
    assert!(ev.contains(&KeyEvent::press(Key::Up)));
    assert!(ev.contains(&KeyEvent::press(Key::Power)));
}

#[test]
fn a_sloppy_side_key_still_reads() {
    let l = Ladders::default();
    // Group 2 takes a reading up to 700 mV off its level, group 1 up to 280 mV.
    assert_eq!(l.group2(1666 + 700), Some(Key::Up));
    assert_eq!(l.group2(1666 + 701), None);
    assert_eq!(l.group1(1096 + 280), Some(Key::Confirm));
    assert_eq!(l.group1(1096 + 281), None);
}

#[test]
fn held_and_power_are_told_apart() {
    let mut m = KeyMachine::new();
    assert!(!m.any_held() && !m.power_held());
    run(&mut m, &[(4095, 4095, true), (4095, 4095, true)], 10);
    assert!(m.any_held() && m.power_held());
    run(&mut m, &[(4095, 4095, false), (4095, 4095, false)], 10);
    assert!(!m.any_held() && !m.power_held() && !m.any_touched());
}

#[test]
fn every_input_can_fire_in_one_sample() {
    let mut m = KeyMachine::new();
    run(&mut m, &[(1096, 1666, true), (1096, 1666, true)], 10);
    let mut last = Vec::new();
    for t in [30u32, 40] {
        last.extend(m.sample(4095, 4095, false, t));
    }
    assert_eq!(last.len(), 3);
}

#[test]
fn a_long_press_fires_once_at_half_a_second() {
    let mut m = KeyMachine::new();
    let mut out = Vec::new();
    for i in 0..60u32 {
        out.extend(m.sample(1997, 4095, false, i * 10));
    }
    assert_eq!(out.iter().filter(|e| e.kind == KeyKind::Long).count(), 1);
    assert_eq!(out[0], KeyEvent::long(Key::Back));
}

#[test]
fn the_stronger_refresh_wins() {
    assert_eq!(Refresh::Nothing.max(Refresh::Du), Refresh::Du);
    assert_eq!(Refresh::Gc.max(Refresh::Du), Refresh::Gc);
    assert_eq!(Refresh::Nothing.max(Refresh::Nothing), Refresh::Nothing);
}
