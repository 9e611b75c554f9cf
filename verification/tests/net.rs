use quire::net::{
    chosen, clean_hostname, common, hotspot_command, hotspot_second, idle_command, password_seed, radio_failed, session_ended, session_setup,
    Addressing, Common, Flags, HotspotAsk, Idle, Joined, Joining, Mode, NetCommand, NetTask, Outcome, Radio, Second, Servers, Station, StationAsk,
    IDLE_OFF_MS,
};
use quire::platform::{FetchRequest, WifiState};

fn joined(ssid: &str) -> Station {
    let (mut s, _) = Station::begin(&mut Flags::default());
    s.current = Some(ssid.into());
    s
}

#[test]
fn host_names_are_cleaned() {
    assert_eq!(clean_hostname("My Reader_2-é!"), "myreader2-");
    assert_eq!(clean_hostname("  "), "quire");
    assert_eq!(clean_hostname(&"A".repeat(40)), "a".repeat(31));
    for s in ["Quire", "X3-b", ""] {
        assert_eq!(clean_hostname(&clean_hostname(s)), clean_hostname(s));
    }
}

#[test]
fn commands_wake_the_radio() {
    let mut f = Flags::default();
    assert_eq!(idle_command(NetCommand::WifiOn, &mut f), Idle::Start(Mode::Station { target: None }));
    assert_eq!(idle_command(NetCommand::Hotspot, &mut f), Idle::Start(Mode::Hotspot));
    assert_eq!(
        idle_command(NetCommand::Join { ssid: "n".into(), password: "p".into() }, &mut f),
        Idle::Start(Mode::Station { target: Some(("n".into(), "p".into())) })
    );
    assert_eq!(idle_command(NetCommand::WifiOff, &mut f), Idle::Stay(Common::Nothing));
    assert!(!f.scan_pending);
    assert_eq!(idle_command(NetCommand::Scan, &mut f), Idle::Start(Mode::Station { target: None }));
    assert!(f.scan_pending);
    let fetch = NetCommand::Fetch(FetchRequest::Job("news".into()));
    assert_eq!(idle_command(fetch.clone(), &mut f), Idle::Stay(Common::Enqueue(fetch, false)));
}

#[test]
fn commands_all_modes_share() {
    let mut f = Flags::default();
    assert_eq!(common(NetCommand::WifiOff, &mut f, true), Common::Off);
    assert_eq!(common(NetCommand::Forget("n".into()), &mut f, true), Common::Forget("n".into()));
    assert_eq!(common(NetCommand::Typing(true), &mut f, true), Common::Typing(true));
    assert_eq!(common(NetCommand::SyncNow, &mut f, true), Common::Enqueue(NetCommand::SyncNow, true));
    assert_eq!(common(NetCommand::Reading(true), &mut f, true), Common::Nothing);
    assert!(f.reading);
    assert_eq!(common(NetCommand::Scan, &mut f, true), Common::Nothing);
}

#[test]
fn sessions_follow_one_another() {
    let mut t = NetTask { next: None };
    assert_eq!(t.begin(), None);
    assert_eq!(t.ended(Outcome::Switch(Mode::Hotspot)), None);
    assert_eq!(t.begin(), Some(Mode::Hotspot));
    assert_eq!(t.begin(), None);
    assert_eq!(t.ended(Outcome::Off), Some(WifiState::Off));
    assert_eq!(session_ended(None), Outcome::Off);
    assert_eq!(session_ended(Some(Outcome::Switch(Mode::Hotspot))), Outcome::Switch(Mode::Hotspot));
}

#[test]
fn sessions_are_set_up_by_their_mode() {
    let (ssid, pw, ip) = ("Quire-12".to_string(), "pass".to_string(), "192.168.4.1".to_string());
    let h = session_setup(&Mode::Hotspot, "X", &ssid, &pw, &ip);
    assert_eq!(h.radio, Radio::AccessPoint(ssid.clone(), pw.clone()));
    assert_eq!(h.addressing, Addressing::Fixed(ip.clone()));
    assert_eq!(h.servers, Servers::Hotspot);
    assert_eq!(h.announce, Some(WifiState::Hotspot { ssid: ssid.clone(), password: pw.clone(), ip: ip.clone() }));
    let s = session_setup(&Mode::Station { target: None }, "My X", &ssid, &pw, &ip);
    assert_eq!(s.radio, Radio::Idle);
    assert_eq!(s.addressing, Addressing::Dhcp("myx".into()));
    assert_eq!((s.servers, s.announce), (Servers::Station, None));
    assert!(!h.power_save && !s.power_save);
    assert_eq!(radio_failed(), (WifiState::Failed("the radio".into()), Outcome::Off));
}

#[test]
fn hotspot_passwords_are_made_once() {
    let mac = [1, 2, 3, 4, 5, 6];
    assert_eq!(password_seed("set", 9, mac), None);
    assert_eq!(password_seed("", 0, mac), Some(u64::from_le_bytes([1, 2, 3, 4, 5, 6, 0, 0])));
    assert_eq!(password_seed("", 0xff, mac), Some(u64::from_le_bytes([1, 2, 3, 4, 5, 6, 0, 0]) ^ 0xff));
}

#[test]
fn joining_publishes_what_happens() {
    let (state, none) = chosen(&None, None, false);
    assert_eq!(state, WifiState::Failed("anything: no saved network".into()));
    assert_eq!(none, None);
    assert_eq!(chosen(&None, None, true).0, WifiState::Failed("a saved network: none in range".into()));
    let pick = || Some(("n".to_string(), "p".to_string()));
    let (state, j) = chosen(&pick(), pick(), true);
    assert_eq!(state, WifiState::Connecting("n".into()));
    let j = j.unwrap();
    assert_eq!(j, Joining { explicit: true, ssid: "n".into(), password: "p".into() });
    let mut current = None;
    // A password the user gave may be wrong: the network is not marked.
    assert_eq!(j.clone().joined(None, &mut current), Joined::Fail(WifiState::Failed("n".into())));
    assert_eq!(current, None);
    assert_eq!(j.joined(Some(WifiState::Off), &mut current), Joined::Remember("n".into(), "p".into(), WifiState::Off));
    assert_eq!(current, Some("n".into()));
    let (_, j) = chosen(&Some(("n".into(), "".into())), pick(), true);
    assert_eq!(j.unwrap().joined(None, &mut current), Joined::Mark("n".into(), WifiState::Failed("n".into())));
}

#[test]
fn station_commands() {
    let mut f = Flags { reading: false, scan_pending: true };
    let (mut s, scan) = Station::begin(&mut f);
    assert!(scan && !f.scan_pending);
    assert_eq!(s.command(NetCommand::WifiOn, &mut f), StationAsk::Join(false, None));
    s.current = Some("n".into());
    assert_eq!(s.command(NetCommand::WifiOn, &mut f), StationAsk::Nothing);
    assert_eq!(s.command(NetCommand::Scan, &mut f), StationAsk::Scan);
    assert_eq!(s.command(NetCommand::Forget("m".into()), &mut f), StationAsk::Forget("m".into(), None));
    assert_eq!(s.command(NetCommand::Forget("n".into()), &mut f), StationAsk::Forget("n".into(), Some(Outcome::Off)));
    assert_eq!(s.command(NetCommand::Hotspot, &mut f), StationAsk::End(Outcome::Switch(Mode::Hotspot)));
    assert_eq!(s.command(NetCommand::WifiOff, &mut f), StationAsk::End(Outcome::Off));
    assert_eq!(s.command(NetCommand::Calibre(true), &mut f), StationAsk::Common(Common::Enqueue(NetCommand::Calibre(true), true)));
    let join = NetCommand::Join { ssid: "k".into(), password: "p".into() };
    assert_eq!(s.command(join, &mut f), StationAsk::Join(true, Some(("k".into(), "p".into()))));
    assert_eq!(s.current, None);
}

#[test]
fn the_radio_idles_out_on_the_page() {
    let mut s = joined("n");
    let on = Flags { reading: true, scan_pending: false };
    assert_eq!(s.second(&on, IDLE_OFF_MS, 0, 0, true), Second::Quiet(None));
    assert_eq!(s.second(&on, IDLE_OFF_MS + 1, 0, 0, true), Second::Off);
    assert_eq!(s.second(&Flags::default(), IDLE_OFF_MS + 1, 0, 0, true), Second::Quiet(None));
    assert!(hotspot_second(&on, IDLE_OFF_MS + 1, 0));
    assert!(!hotspot_second(&on, IDLE_OFF_MS, 0));
    assert!(!hotspot_second(&Flags::default(), IDLE_OFF_MS + 1, 0));
}

#[test]
fn dozing_is_told_once() {
    let mut s = joined("n");
    let f = Flags::default();
    assert_eq!(s.second(&f, 1_000, 0, 5_000, true), Second::Quiet(Some(false)));
    assert_eq!(s.second(&f, 2_000, 0, 5_000, true), Second::Quiet(None));
    assert_eq!(s.second(&f, 5_000, 0, 5_000, true), Second::Quiet(Some(true)));
    assert_eq!(s.second(&f, 6_000, 0, 5_000, true), Second::Quiet(None));
}

#[test]
fn a_lost_link_is_given_up_after_three_tries() {
    let mut s = joined("n");
    let f = Flags::default();
    for _ in 0..3 {
        assert_eq!(s.second(&f, 0, 0, 0, false), Second::Rejoin(None, "n".into()));
        assert_eq!(s.rejoined(None), None);
    }
    assert_eq!(s.second(&f, 0, 0, 0, false), Second::GiveUp(None, WifiState::Failed("n".into())));
    assert_eq!((s.current.clone(), s.retries), (None, 0));
    let mut s = joined("n");
    s.second(&f, 0, 0, 0, false);
    assert_eq!(s.rejoined(Some(WifiState::Off)), Some(WifiState::Off));
    assert_eq!(s.retries, 0);
}

#[test]
fn the_signal_is_seen_every_ten_seconds() {
    let mut s = joined("n");
    let f = Flags::default();
    for _ in 0..9 {
        assert_eq!(s.second(&f, 0, 0, 0, true), Second::Quiet(None));
    }
    assert_eq!(s.second(&f, 0, 0, 0, true), Second::Signal(None));
    let seen = WifiState::Connected { ssid: "n".into(), ip: "10.0.0.2".into(), host: "quire".into(), signal: 3 };
    assert_eq!(s.signal(3, "10.0.0.2", "quire"), Some(seen));
    assert_eq!(s.signal(3, "10.0.0.2", "quire"), None);
}

#[test]
fn hotspot_commands() {
    let mut f = Flags::default();
    assert_eq!(hotspot_command(NetCommand::WifiOn, &mut f), HotspotAsk::End(Outcome::Switch(Mode::Station { target: None })));
    assert_eq!(hotspot_command(NetCommand::Hotspot, &mut f), HotspotAsk::Nothing);
    assert_eq!(hotspot_command(NetCommand::Scan, &mut f), HotspotAsk::NoScan);
    assert_eq!(hotspot_command(NetCommand::WifiOff, &mut f), HotspotAsk::End(Outcome::Off));
    assert_eq!(hotspot_command(NetCommand::Forget("n".into()), &mut f), HotspotAsk::Common(Common::Forget("n".into()), true));
    assert_eq!(hotspot_command(NetCommand::Ota("u".into()), &mut f), HotspotAsk::Common(Common::Enqueue(NetCommand::Ota("u".into()), false), false));
}
