use quire::device::{
    book_percent, boot_time, cycled, heard, is_clean_boot, message_frame, publish_status, reading, rolls_back, scan_changed, serial, time_sync, wake_card,
    AfterSlice, Device, DeviceAsk, Heap, Heard, Hold, ImageState, Install, InstallProgress, LightSleep, NetToMain, Rail, RecoveryHold, ResetReason, Uptime,
    WakeCard, Work, FIRST_EPOCH, BootTime,
};
use quire::draw::{Base, Face, Faces, Ink, Metrics, Op, Place, Rect, Sheet, TextOp, Theme};
use quire::index::BookId;
use quire::net::NetCommand;
use quire::platform::{Battery, Event, NetEvent, SysRequest, WifiState};

fn sheet() -> Sheet {
    let m = Metrics { ascent: 20, below: 6, line_h: 30 };
    Sheet {
        w: 528,
        h: 792,
        faces: Faces { title: m, mono: m, label: m, list_title: m, body: m, poster: m, hero: m },
        theme: Theme { rail_h: 48, row_pad: 24, row_h: 64, margin: 24, spine_w: 12 },
    }
}

#[test]
fn time_passes_in_sleep() {
    let mut u = Uptime { slept_ms: 0 };
    assert_eq!(u.now(1_000), 1_000);
    // The system timer stood still for 25 ms of a nap that lasted 25 ms.
    u.dozed(1_000, 1_000, 50, 75);
    assert_eq!(u.now(1_000), 1_025);
    // A timer that keeps running books nothing.
    u.dozed(2_000, 2_030, 0, 25);
    assert_eq!(u.slept_ms, 25);
    // Counters may wrap.
    u.dozed(0, 0, u32::MAX - 4, 5);
    assert_eq!(u.slept_ms, 35);
}

#[test]
fn booting() {
    assert_eq!(boot_time(Some(5), Some(6)), BootTime { now: 5, is_set: true });
    assert_eq!(boot_time(None, Some(1_700_000_000)), BootTime { now: 1_700_000_000, is_set: true });
    assert_eq!(boot_time(None, Some(1_600_000_000)), BootTime { now: FIRST_EPOCH, is_set: false });
    assert_eq!(boot_time(None, None), BootTime { now: FIRST_EPOCH, is_set: false });
    assert!(is_clean_boot(Some(ResetReason::PowerOn), false));
    assert!(is_clean_boot(Some(ResetReason::DeepSleep), false));
    assert!(is_clean_boot(None, true));
    assert!(!is_clean_boot(Some(ResetReason::Other), false) && !is_clean_boot(None, false));
    assert!(rolls_back(true, Some(ImageState::PendingVerify)) && rolls_back(true, Some(ImageState::New)));
    assert!(!rolls_back(false, Some(ImageState::New)) && !rolls_back(true, Some(ImageState::Valid)) && !rolls_back(true, None));
    assert_eq!(serial([0x0a, 0xff, 0x10, 0, 0x9c, 0x7b]), "0AFF10009C7B");
    assert_eq!((reading(Some(7)), reading(None)), (7, 4095));
}

#[test]
fn back_held_enters_recovery() {
    let mut h = RecoveryHold { held: 0 };
    for _ in 0..9 {
        assert_eq!(h.sample(1997), Hold::Again);
    }
    assert_eq!(h.sample(1997), Hold::Recover);
    let mut h = RecoveryHold { held: 0 };
    h.sample(1997);
    assert_eq!(h.sample(1096), Hold::Boot);
    assert_eq!(h.held, 1);
}

#[test]
fn messages_fill_the_panel() {
    let f = message_frame(sheet(), "No card", &vec!["Insert".into(), "one".into()]);
    let text = |face: Face, y: i32, t: &str| {
        Op::Text(TextOp { face, x: 32, place: Place::Start, base: Base::At(y), text: t.to_string(), fit: None, inverted: false, caps: false })
    };
    assert_eq!(
        f.ops,
        [
            Op::Fill(Rect { x: 0, y: 0, w: 528, h: 792 }, Ink::White),
            text(Face::Title, 300, "No card"),
            text(Face::Body, 360, "Insert"),
            text(Face::Body, 390, "one"),
        ]
    );
}

#[test]
fn seconds_batteries_and_timers() {
    let mut d = Device::new(u32::MAX - 499);
    assert!(!d.second(499));
    assert!(d.second(500));
    assert!(!d.second(501));
    assert!(!d.battery_due(29_499));
    assert!(d.battery_due(29_500));
    assert!(!d.timer(0));
    assert_eq!(d.request(SysRequest::Timer(100), u32::MAX - 49, 0), DeviceAsk::Nothing);
    assert!(!d.timer(49));
    assert!(d.timer(50));
    assert!(!d.timer(51));
}

#[test]
fn the_device_falls_asleep_when_left_alone() {
    let mut d = Device::new(0);
    d.active(1_000);
    assert!(!d.falls_asleep(300_999, false, 5));
    assert!(d.falls_asleep(301_000, false, 5));
    assert!(!d.falls_asleep(301_000, true, 5));
    assert!(!d.falls_asleep(u32::MAX, false, 0));
}

#[test]
fn naps_need_quiet() {
    let d = Device::new(0);
    let (off, b) = (WifiState::Off, Battery::default());
    assert!(d.can_nap(false, &off, &b, 1_500));
    assert!(!d.can_nap(false, &off, &b, 1_499));
    assert!(!d.can_nap(true, &off, &b, 1_500));
    assert!(!d.can_nap(false, &WifiState::Connecting("n".into()), &b, 1_500));
    assert!(!d.can_nap(false, &off, &Battery { charging: true, ..b }, 1_500));
}

#[test]
fn requests_reach_their_owner() {
    let mut d = Device::new(0);
    let mut ask = |r: SysRequest| d.request(r, 10, 1_700_000_000);
    assert_eq!(ask(SysRequest::Sleep), DeviceAsk::Sleep);
    assert_eq!(ask(SysRequest::PowerOff), DeviceAsk::PowerOff);
    assert_eq!(ask(SysRequest::Restart), DeviceAsk::Restart);
    assert_eq!(ask(SysRequest::Recovery), DeviceAsk::Recovery);
    assert_eq!(ask(SysRequest::RefreshFull), DeviceAsk::RefreshFull);
    assert_eq!(ask(SysRequest::SetTime(5)), DeviceAsk::SetTime(5));
    assert_eq!(ask(SysRequest::Screenshot), DeviceAsk::Screenshot("/screenshot-1700000000.pbm".into()));
    assert_eq!(ask(SysRequest::IngestNow), DeviceAsk::ListPending);
    assert_eq!(ask(SysRequest::WifiScan), DeviceAsk::Net(NetCommand::Scan));
    assert_eq!(ask(SysRequest::WifiForget("n".into())), DeviceAsk::Net(NetCommand::Forget("n".into())));
    assert_eq!(ask(SysRequest::Ota("/update.bin".into())), DeviceAsk::Install("/update.bin".into()));
    assert_eq!(ask(SysRequest::Ota("http://x".into())), DeviceAsk::Net(NetCommand::Ota("http://x".into())));
    assert_eq!(ask(SysRequest::LockKeys(true)), DeviceAsk::Nothing);
}

#[test]
fn the_net_task_hears_of_the_page_once() {
    let mut d = Device::new(0);
    assert_eq!(d.page("20-reading"), Some(NetCommand::Reading(true)));
    assert_eq!(d.page("20-reading"), None);
    assert_eq!(d.page("42-jump"), Some(NetCommand::Reading(false)));
    assert!(d.mirrors(500, true));
    assert!(!d.mirrors(900, true) && !d.mirrors(1_000, false));
    assert!(d.mirrors(1_000, true));
}

#[test]
fn idle_work_comes_one_unit_at_a_time() {
    let mut d = Device::new(0);
    assert_eq!(d.work(Some(false)), Work::Scan);
    d.queue(vec![BookId(1), BookId(2)]);
    assert_eq!(d.work(Some(false)), Work::Index);
    assert_eq!(d.work(Some(true)), Work::Ingest(BookId(2)));
    assert_eq!(d.work(None), Work::Ingest(BookId(1)));
    assert_eq!(d.work(Some(true)), Work::Prefetch);
    assert_eq!(d.work(None), Work::Nothing);
    d.request(SysRequest::Rescan, 0, 0);
    assert_eq!(d.work(None), Work::Scan);
    assert!(scan_changed(0, 1, 0) && scan_changed(1, 0, 0) && scan_changed(0, 0, 1) && !scan_changed(0, 0, 0));
    assert_eq!((book_percent(999), book_percent(1_000), book_percent(5_000)), (99, 100, 100));
}

#[test]
fn a_sync_keeps_the_zone() {
    let utc = 1_750_000_000;
    // Two hours ahead, and 7 s slow.
    assert_eq!(time_sync(utc + 7_200 - 7, utc, true), Some(utc + 7_200));
    // Five and a half hours behind, and 100 s fast.
    assert_eq!(time_sync(utc - 19_800 + 100, utc, true), Some(utc - 19_800));
    assert_eq!(time_sync(utc + 1, utc, true), None);
    assert_eq!(time_sync(utc + 2, utc, true), Some(utc));
    // Half a quarter rounds away from UTC.
    assert_eq!(time_sync(utc + 450, utc, true), Some(utc + 900));
    assert_eq!(time_sync(utc - 450, utc, true), Some(utc - 900));
    assert_eq!(time_sync(1_700_000_000, utc, true), None);
    // A clock that nothing ever set is left for the wizard.
    let boot = boot_time(None, None);
    assert_eq!(time_sync(boot.now + 5, FIRST_EPOCH, boot.is_set), None);
    assert_eq!(time_sync(boot.now + 5, FIRST_EPOCH, true), Some(FIRST_EPOCH));
}

#[test]
fn the_main_loop_hears_the_net_task() {
    let ota = |finished: Option<Result<(), String>>| Event::Net(NetEvent::OtaProgress { done: 1, total: 1, finished });
    assert_eq!(heard(NetToMain::Ui(Event::Tick), 0, true), Heard::Handle(Event::Tick, false));
    assert_eq!(heard(NetToMain::Ui(ota(None)), 0, true), Heard::Handle(ota(None), false));
    assert_eq!(heard(NetToMain::Ui(ota(Some(Err("x".into())))), 0, true), Heard::Handle(ota(Some(Err("x".into()))), false));
    assert_eq!(heard(NetToMain::Ui(ota(Some(Ok(())))), 0, true), Heard::Handle(ota(Some(Ok(()))), true));
    assert_eq!(heard(NetToMain::SavedNetworks(vec!["n".into()]), 0, true), Heard::Networks(vec!["n".into()]));
    assert_eq!(heard(NetToMain::SettingsChanged, 0, true), Heard::Reload);
    assert_eq!(heard(NetToMain::ScreenRequest, 0, true), Heard::WriteScreen);
    assert_eq!(heard(NetToMain::TimeSync(1_750_000_000), 1_750_000_010, true), Heard::SetTime(1_750_000_000));
    assert_eq!(heard(NetToMain::TimeSync(1_750_000_000), 1_750_000_000, true), Heard::Nothing);
    assert_eq!(heard(NetToMain::TimeSync(1_750_000_000), 1_750_000_010, false), Heard::Nothing);
}

#[test]
fn installations_show_every_five_percent() {
    let mut p = InstallProgress::begin(true).unwrap();
    let shown: Vec<u32> = (0..=100).filter(|pct| p.reached(*pct) != Install::Nothing).collect();
    assert_eq!(shown, (0..=100).step_by(5).collect::<Vec<_>>());
    let mut p = InstallProgress { shown: 98 };
    assert_eq!(p.reached(99), Install::Nothing);
    assert_eq!(p.reached(100), Install::Tell(NetEvent::OtaProgress { done: 100, total: 100, finished: None }));
    assert_eq!(p.reached(100), Install::Nothing);
    assert_eq!(p.ended(Ok(())), Install::Restart(NetEvent::OtaProgress { done: 100, total: 100, finished: Some(Ok(())) }));
    let failed = |why: &str| Install::Failed(NetEvent::OtaProgress { done: 0, total: 100, finished: Some(Err(why.into())) });
    assert_eq!(p.ended(Err("bad image".into())), failed("bad image"));
    assert_eq!(InstallProgress::begin(false), Err(failed("flash unavailable")));
}

#[test]
fn the_status_is_what_the_device_is() {
    let battery = Battery { percent: 80, charging: true, ..Battery::default() };
    let heap = Heap { size: 200_000, used: 50_000, largest: 90_000 };
    let s = publish_status(&battery, "1.2", Some(("Emma".into(), 421)), "quire", heap, 61_500, 7, true);
    assert_eq!((s.battery_percent, s.charging, s.version.as_str(), s.build.as_str()), (80, true, "1.2", "1.2"));
    assert_eq!((s.book_title.as_deref(), s.book_percent, s.hostname.as_str()), (Some("Emma"), 42, "quire"));
    assert_eq!((s.heap_free, s.heap_largest, s.uptime, s.local_now, s.reading), (150_000, 90_000, 61, 7, true));
    let s = publish_status(&battery, "1.2", None, "quire", heap, 0, 0, false);
    assert_eq!((s.book_title, s.book_percent), (None, 0));
}

#[test]
fn the_card_rests_in_a_long_sleep() {
    let mut s = LightSleep::new(0);
    for _ in 0..4 {
        assert_eq!(s.before(false), Rail::Same);
        assert_eq!(s.after(3), AfterSlice::Tick);
    }
    assert_eq!(s.before(false), Rail::Down);
    assert_eq!(s.before(false), Rail::Same);
    assert_eq!(s.after(0), AfterSlice::Tick);
    assert_eq!(s.before(true), Rail::Up);
    assert_eq!(s.after(4), AfterSlice::Wake(false));
    s.before(false);
    assert_eq!(s.after(6), AfterSlice::Wake(true));
}

#[test]
fn the_device_powers_down_on_time() {
    let mut s = LightSleep::new(1);
    assert_eq!(s.after(0), AfterSlice::Tick);
    assert_eq!(s.after(0), AfterSlice::DeepSleep);
    let mut never = LightSleep::new(0);
    never.slept_ms = u32::MAX;
    assert_eq!(never.after(0), AfterSlice::Tick);
    assert_eq!(LightSleep::new(u32::MAX).off_after_ms, u32::MAX);
}

#[test]
fn a_silent_card_is_tried_three_times() {
    assert_eq!(wake_card(1, true), WakeCard::Up);
    assert_eq!(wake_card(1, false), WakeCard::Cycle(50));
    assert_eq!(cycled(1), WakeCard::Try(2));
    assert_eq!(wake_card(3, false), WakeCard::Cycle(150));
    assert_eq!(cycled(3), WakeCard::Silent);
}
