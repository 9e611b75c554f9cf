//! The device: its clock across sleeps, the main loop's decisions from pass to pass, and how it falls asleep and
//! wakes.
//!
//! The platform samples keys, shows frames and drives the rails; what is due, what is asked of whom, and when the
//! device may sleep is decided here.
use vstd::prelude::*;

use crate::draw::{Base, Face, Frame, Ink, Op, Rect, Sheet};
use crate::index::BookId;
use crate::input::Key;
use crate::keys;
use crate::keys::Ladders;
use crate::net::NetCommand;
use crate::platform::{Battery, Event, NetEvent, SysRequest, WifiState};
use crate::text;
use crate::widgets;

verus! {

/// How long one nap lasts: short enough that no key can be pressed and released inside one.
pub const NAP_MS: u32 = 25;

/// Quiet time before napping starts.
pub const NAP_AFTER_MS: u32 = 1_500;

/// How long one slice of light sleep lasts.
pub const SLICE_MS: u32 = 30_000;

/// Light sleep this long before the card's power rail comes down.
pub const CARD_OFF_AFTER_MS: u32 = 120_000;

/// A clock that shows less than this was never set.
pub const CLOCK_SET_AFTER: u32 = 1_600_000_000;

/// Where the clock starts that nothing tells the time: the first-run wizard corrects it.
pub const FIRST_EPOCH: u32 = 1_789_000_000;

/// A local time up to here is not corrected from the network.
pub const SYNC_AFTER: u32 = 1_700_000_000;

/// A quarter of an hour, in seconds.
pub const QUARTER: i64 = 900;

/// The reading of a stuck conversion: no key.
pub const STUCK_MV: u16 = 4095;

/// How many samples in a row hold Back down for recovery.
pub const RECOVERY_SAMPLES: u32 = 10;

/// Milliseconds the system timer missed while the clocks were off in a light sleep.
#[derive(Clone, Copy, Debug, PartialEq, Eq, Structural)]
pub struct Uptime {
    /// Milliseconds missed.
    pub slept_ms: u32,
}

impl Uptime {
    /// Milliseconds since the device started, by the system timer and what it missed.
    pub open spec fn at(self, sys_ms: u32) -> u32 {
        sys_ms.wrapping_add(self.slept_ms)
    }

    /// How much of a sleep the system timer missed: what the RTC counted beyond it.
    pub open spec fn missed(before_sys: u32, after_sys: u32, before_rtc: u32, after_rtc: u32) -> int {
        let slept = after_rtc.wrapping_sub(before_rtc);
        let counted = after_sys.wrapping_sub(before_sys);
        if slept > counted {
            slept - counted
        } else {
            0
        }
    }

    /// Milliseconds since the device started.
    pub fn now(&self, sys_ms: u32) -> (r: u32)
        ensures
            r == self.at(sys_ms),
    {
        sys_ms.wrapping_add(self.slept_ms)
    }

    /// Account for a sleep: the system timer and the RTC before and after it, in milliseconds.
    pub fn dozed(&mut self, before_sys: u32, after_sys: u32, before_rtc: u32, after_rtc: u32)
        ensures
            final(self).slept_ms == old(self).slept_ms.wrapping_add(
                Uptime::missed(before_sys, after_sys, before_rtc, after_rtc) as u32,
            ),
    {
        let slept: u32 = after_rtc.wrapping_sub(before_rtc);
        let counted: u32 = after_sys.wrapping_sub(before_sys);
        let missed: u32 = if slept > counted { slept - counted } else { 0 };
        self.slept_ms = self.slept_ms.wrapping_add(missed);
    }
}

/// Across a sleep the device's time moves on by what really passed: what the RTC counted, or the system timer
/// where that kept running.
pub proof fn law_time_passes_in_sleep(u: Uptime, before_sys: u32, after_sys: u32, before_rtc: u32, after_rtc: u32)
    ensures
        ({
            let v = Uptime {
                slept_ms: u.slept_ms.wrapping_add(Uptime::missed(before_sys, after_sys, before_rtc, after_rtc) as u32),
            };
            let slept = after_rtc.wrapping_sub(before_rtc);
            let counted = after_sys.wrapping_sub(before_sys);
            v.at(after_sys).wrapping_sub(u.at(before_sys)) == if slept > counted {
                slept
            } else {
                counted
            }
        }),
{
}

/// What a key input reads: a conversion that failed reads as no key.
pub fn reading(mv: Option<u16>) -> (r: u16)
    ensures
        r == match mv {
            Some(v) => v,
            None => STUCK_MV,
        },
{
    match mv {
        Some(v) => v,
        None => STUCK_MV,
    }
}

/// Local time at boot.
#[derive(Clone, Copy, Debug, PartialEq, Eq, Structural)]
pub struct BootTime {
    /// The time, in seconds since 1970.
    pub now: u32,
    /// Whether anything told it: without, it is the fixed first-run epoch.
    pub is_set: bool,
}

/// Local time at boot: the clock chip, else what was kept before the device went down if that was ever set, else
/// a fixed epoch.
pub open spec fn time_at_boot(clock: Option<u32>, kept: Option<u32>) -> BootTime {
    match clock {
        Some(t) => BootTime { now: t, is_set: true },
        None => match kept {
            Some(t) => if t > CLOCK_SET_AFTER {
                BootTime { now: t, is_set: true }
            } else {
                BootTime { now: FIRST_EPOCH, is_set: false }
            },
            None => BootTime { now: FIRST_EPOCH, is_set: false },
        },
    }
}

/// Local time at boot: the clock chip, else what was kept before the device went down if that was ever set, else
/// a fixed epoch.
pub fn boot_time(clock: Option<u32>, kept: Option<u32>) -> (r: BootTime)
    ensures
        r == time_at_boot(clock, kept),
{
    match clock {
        Some(t) => BootTime { now: t, is_set: true },
        None => match kept {
            Some(t) => {
                if t > CLOCK_SET_AFTER {
                    BootTime { now: t, is_set: true }
                } else {
                    BootTime { now: FIRST_EPOCH, is_set: false }
                }
            },
            None => BootTime { now: FIRST_EPOCH, is_set: false },
        },
    }
}

/// Why the chip started.
#[derive(Clone, Copy, Debug, PartialEq, Eq, Structural)]
pub enum ResetReason {
    /// Power came up.
    PowerOn,
    /// It woke from deep sleep.
    DeepSleep,
    /// Something else.
    Other,
}

/// Whether a boot is a clean one, not a crash: power came up, or the device woke.
pub fn is_clean_boot(reset: Option<ResetReason>, woke: bool) -> (r: bool)
    ensures
        r == boots_cleanly(reset, woke),
        r == (woke || reset == Some(ResetReason::PowerOn) || reset == Some(ResetReason::DeepSleep)),
{
    woke || match reset {
        Some(ResetReason::PowerOn) | Some(ResetReason::DeepSleep) => true,
        _ => false,
    }
}

/// How far an installed image is trusted.
#[derive(Clone, Copy, Debug, PartialEq, Eq, Structural)]
pub enum ImageState {
    /// Just installed.
    New,
    /// Booted, not confirmed.
    PendingVerify,
    /// Confirmed.
    Valid,
    /// Found bad.
    Invalid,
    /// Given up.
    Aborted,
    /// Not known.
    Undefined,
}

/// Whether to go back to the last good image: after repeated crashes on one that was never confirmed.
pub fn rolls_back(safe_mode: bool, state: Option<ImageState>) -> (r: bool)
    ensures
        r == is_rolled_back(safe_mode, state),
        r == (safe_mode && (state == Some(ImageState::New) || state == Some(ImageState::PendingVerify))),
{
    safe_mode && match state {
        Some(ImageState::New) | Some(ImageState::PendingVerify) => true,
        _ => false,
    }
}

/// What a sample of the keys at boot leads to.
#[derive(Clone, Copy, Debug, PartialEq, Eq, Structural)]
pub enum Hold {
    /// Sample again in a tenth of a second.
    Again,
    /// Boot on.
    Boot,
    /// Enter recovery.
    Recover,
}

/// Back held through power-on: how many samples it was down.
#[derive(Clone, Copy, Debug, PartialEq, Eq, Structural)]
pub struct RecoveryHold {
    /// Samples.
    pub held: u32,
}

impl RecoveryHold {
    /// A sample of the group of Back: held for a second, ten samples in a row, it enters recovery; at the first
    /// sample without it the device boots on.
    pub fn sample(&mut self, mv: u16) -> (r: Hold)
        requires
            old(self).held < RECOVERY_SAMPLES,
        ensures
            (*final(self), r) == old(self).sampled(mv),
            ({
                let back = keys::decoded(keys::GROUP1@, keys::IDLE_ABOVE, mv, keys::WINDOW1) == Some(Key::Back);
                &&& final(self).held == if back {
                    old(self).held + 1
                } else {
                    old(self).held as int
                }
                &&& r == if !back {
                    Hold::Boot
                } else if old(self).held + 1 >= RECOVERY_SAMPLES {
                    Hold::Recover
                } else {
                    Hold::Again
                }
            }),
    {
        if Ladders::decode(&keys::GROUP1, keys::IDLE_ABOVE, mv, keys::WINDOW1) != Some(Key::Back) {
            return Hold::Boot;
        }
        self.held = self.held + 1;
        if self.held >= RECOVERY_SAMPLES {
            Hold::Recover
        } else {
            Hold::Again
        }
    }
}

/// A hexadecimal digit in upper case.
pub open spec fn hex_digit(n: int) -> char {
    if n < 10 {
        (0x30 + n) as char
    } else {
        (0x37 + n) as char
    }
}

/// Bytes in hexadecimal, two digits each.
pub open spec fn hex_text(bytes: Seq<u8>) -> Seq<char> {
    Seq::new(
        2 * bytes.len(),
        |i: int|
            hex_digit(
                if i % 2 == 0 {
                    bytes[i / 2] as int / 16
                } else {
                    bytes[i / 2] as int % 16
                },
            ),
    )
}

fn digit_of(n: u8) -> (r: char)
    requires
        n < 16,
    ensures
        r == hex_digit(n as int),
{
    (if n < 10 { 0x30 + n } else { 0x37 + n }) as char
}

/// The device's serial number: its MAC address in hexadecimal.
pub fn serial(mac: [u8; 6]) -> (r: String)
    ensures
        r@ == hex_text(mac@),
{
    let mut out = String::new();
    let mut i: usize = 0;
    assert(out@ =~= hex_text(mac@.take(0)));
    while i < 6
        invariant
            i <= 6,
            out@ == hex_text(mac@.take(i as int)),
        decreases 6 - i,
    {
        let b: u8 = mac[i];
        out.push(digit_of(b / 16));
        out.push(digit_of(b % 16));
        assert(out@ =~= hex_text(mac@.take(i + 1)));
        i += 1;
    }
    assert(mac@.take(6) =~= mac@);
    out
}

/// What a message on the whole panel draws; the text is wrapped.
pub open spec fn message_ops(s: Sheet, title: Seq<char>, lines: Seq<Seq<char>>) -> Seq<Op<Seq<char>>> {
    seq![
        crate::draw::fill(0, 0, s.w as int, s.h as int, Ink::White),
        crate::draw::plain(Face::Title, 32, crate::draw::at(300), title, None, false),
    ] + widgets::plain_lines(Face::Body, 32, 360, 30, lines, lines.len() as int)
}

/// Draw a full-screen message (before the UI exists, or when the card is missing).
pub fn message_frame(sheet: Sheet, title: &str, lines: &Vec<String>) -> (f: Frame)
    requires
        lines@.len() <= widgets::MAX_LINES,
    ensures
        f.sheet == sheet,
        f@ == message_ops(sheet, title@, text::texts(lines@)),
{
    let mut f = Frame::new(sheet);
    f.fill_rect(Rect::new(0, 0, sheet.w, sheet.h), Ink::White);
    f.text(Face::Title, 32, Base::At(300), title, None, false);
    widgets::draw_lines(&mut f, Face::Body, 32, 360, 30, lines);
    assert(f@ =~= message_ops(sheet, title@, text::texts(lines@)));
    f
}

/// Whether a deadline has come.
pub open spec fn has_come(due: u32, now: u32) -> bool {
    now.wrapping_sub(due) < 0x8000_0000
}

/// The main loop, from pass to pass.
pub struct Device {
    /// When the last second was counted.
    pub last_tick: u32,
    /// When the battery was last read.
    pub last_battery: u32,
    /// When a key was last used.
    pub last_activity: u32,
    /// When the timer a screen asked for is due.
    pub timer_due: Option<u32>,
    /// Books to take in.
    pub ingest_queue: Vec<BookId>,
    /// Whether the card was scanned.
    pub scanned: bool,
    /// When the frame was last mirrored.
    pub last_mirror: u32,
    /// Whether the net task knows the reading page as the top screen.
    pub reading_up: bool,
}

/// What a request of a screen asks of the platform.
#[derive(Debug, PartialEq, Eq)]
pub enum DeviceAsk {
    /// Sleep once this pass is over.
    Sleep,
    /// Save everything and power down.
    PowerOff,
    /// Save everything and restart.
    Restart,
    /// Save everything and restart into recovery.
    Recovery,
    /// Refresh the whole panel.
    RefreshFull,
    /// Set the clock and the clock chip.
    SetTime(u32),
    /// Save the frame under this name.
    Screenshot(String),
    /// List the books to take in.
    ListPending,
    /// Tell the net task.
    Net(NetCommand),
    /// Save everything and install the update of this path.
    Install(String),
    /// Nothing.
    Nothing,
}

/// Whether an update is on the card already: its source is a path there.
pub open spec fn is_card_path(src: Seq<char>) -> bool {
    src.len() > 0 && src[0] == '/'
}

/// What a request asks of the platform; `local_now` is the local time.
pub open spec fn request_ask(req: SysRequest, local_now: u32, ask: DeviceAsk) -> bool {
    match req {
        SysRequest::Sleep => ask is Sleep,
        SysRequest::PowerOff => ask is PowerOff,
        SysRequest::Restart => ask is Restart,
        SysRequest::Recovery => ask is Recovery,
        SysRequest::RefreshFull => ask is RefreshFull,
        SysRequest::SetTime(t) => ask == DeviceAsk::SetTime(t),
        SysRequest::Screenshot => ask matches DeviceAsk::Screenshot(name) && name@ == "/screenshot-"@ + text::decimal(
            local_now as nat,
        ) + ".pbm"@,
        SysRequest::IngestNow => ask is ListPending,
        SysRequest::Calibre(on) => ask == DeviceAsk::Net(NetCommand::Calibre(on)),
        SysRequest::SyncNow => ask == DeviceAsk::Net(NetCommand::SyncNow),
        SysRequest::WifiOn => ask == DeviceAsk::Net(NetCommand::WifiOn),
        SysRequest::WifiOff => ask == DeviceAsk::Net(NetCommand::WifiOff),
        SysRequest::Hotspot => ask == DeviceAsk::Net(NetCommand::Hotspot),
        SysRequest::WifiScan => ask == DeviceAsk::Net(NetCommand::Scan),
        SysRequest::WifiJoin { ssid, password } => ask == DeviceAsk::Net(NetCommand::Join { ssid, password }),
        SysRequest::WifiForget(ssid) => ask == DeviceAsk::Net(NetCommand::Forget(ssid)),
        SysRequest::Fetch(f) => ask == DeviceAsk::Net(NetCommand::Fetch(f)),
        SysRequest::Ota(src) => if is_card_path(src@) {
            ask == DeviceAsk::Install(src)
        } else {
            ask == DeviceAsk::Net(NetCommand::Ota(src))
        },
        SysRequest::Timer(_) | SysRequest::Rescan | SysRequest::LockKeys(_) | SysRequest::Orientation(_)
        | SysRequest::NightJobs(_) => ask is Nothing,
    }
}

/// A unit of work for an idle pass.
#[derive(Clone, Copy, Debug, PartialEq, Eq, Structural)]
pub enum Work {
    /// Scan the card.
    Scan,
    /// Go on indexing the open book's pages.
    Index,
    /// Take in a book.
    Ingest(BookId),
    /// Fetch the open book's next section ahead.
    Prefetch,
    /// Nothing.
    Nothing,
}

impl Device {
    /// The loop begins.
    pub fn new(now: u32) -> (r: Self)
        ensures
            r.last_tick == now,
            r.last_battery == now,
            r.last_activity == now,
            r.timer_due is None,
            r.ingest_queue@.len() == 0,
            !r.scanned,
            r.last_mirror == 0,
            !r.reading_up,
    {
        Device {
            last_tick: now,
            last_battery: now,
            last_activity: now,
            timer_due: None,
            ingest_queue: Vec::new(),
            scanned: false,
            last_mirror: 0,
            reading_up: false,
        }
    }

    /// A key was used, or the device woke.
    pub fn active(&mut self, now: u32)
        ensures
            *final(self) == (Device { last_activity: now, ..*old(self) }),
    {
        self.last_activity = now;
    }

    /// Whether a second passed; it is counted.
    pub fn second(&mut self, now: u32) -> (r: bool)
        ensures
            r == tick_due(old(self).last_tick, now),
            r == (now.wrapping_sub(old(self).last_tick) >= 1000),
            *final(self) == if r {
                Device { last_tick: now, ..*old(self) }
            } else {
                *old(self)
            },
    {
        if now.wrapping_sub(self.last_tick) >= 1000 {
            self.last_tick = now;
            true
        } else {
            false
        }
    }

    /// Whether the battery is to be read: every 30 s.
    pub fn battery_due(&mut self, now: u32) -> (r: bool)
        ensures
            r == battery_look_due(old(self).last_battery, now),
            r == (now.wrapping_sub(old(self).last_battery) >= 30_000),
            *final(self) == if r {
                Device { last_battery: now, ..*old(self) }
            } else {
                *old(self)
            },
    {
        if now.wrapping_sub(self.last_battery) >= 30_000 {
            self.last_battery = now;
            true
        } else {
            false
        }
    }

    /// Whether the device was left alone long enough to fall asleep; never with the timeout at 0.
    pub fn falls_asleep(&self, now: u32, asleep: bool, sleep_after_min: u32) -> (r: bool)
        ensures
            r == self.is_left_alone(now, asleep, sleep_after_min),
            r == (!asleep && sleep_after_min > 0 && now.wrapping_sub(self.last_activity) / 60_000 >= sleep_after_min),
    {
        !asleep && sleep_after_min > 0 && now.wrapping_sub(self.last_activity) / 60_000 >= sleep_after_min
    }

    /// Whether the timer a screen asked for is due; it then fires once.
    pub fn timer(&mut self, now: u32) -> (r: bool)
        ensures
            r == (old(self).timer_due matches Some(due) && has_come(due, now)),
            *final(self) == if r {
                Device { timer_due: None, ..*old(self) }
            } else {
                *old(self)
            },
    {
        match self.timer_due {
            Some(due) => {
                if now.wrapping_sub(due) < 0x8000_0000 {
                    self.timer_due = None;
                    true
                } else {
                    false
                }
            },
            None => false,
        }
    }

    /// Handle a request a screen made; `local_now` is the local time.
    pub fn request(&mut self, req: SysRequest, now: u32, local_now: u32) -> (r: DeviceAsk)
        ensures
            request_ask(req, local_now, r),
            *final(self) == match req {
                SysRequest::Timer(ms) => Device { timer_due: Some(now.wrapping_add(ms)), ..*old(self) },
                SysRequest::Rescan => Device { scanned: false, ..*old(self) },
                _ => *old(self),
            },
    {
        match req {
            SysRequest::Sleep => DeviceAsk::Sleep,
            SysRequest::PowerOff => DeviceAsk::PowerOff,
            SysRequest::Restart => DeviceAsk::Restart,
            SysRequest::Recovery => DeviceAsk::Recovery,
            SysRequest::RefreshFull => DeviceAsk::RefreshFull,
            SysRequest::SetTime(t) => DeviceAsk::SetTime(t),
            SysRequest::Timer(ms) => {
                self.timer_due = Some(now.wrapping_add(ms));
                DeviceAsk::Nothing
            },
            SysRequest::LockKeys(_) | SysRequest::Orientation(_) | SysRequest::NightJobs(_) => DeviceAsk::Nothing,
            SysRequest::Screenshot => DeviceAsk::Screenshot(
                text::join3("/screenshot-", &text::number(local_now as u64), ".pbm"),
            ),
            SysRequest::Rescan => {
                self.scanned = false;
                DeviceAsk::Nothing
            },
            SysRequest::IngestNow => DeviceAsk::ListPending,
            SysRequest::Calibre(on) => DeviceAsk::Net(NetCommand::Calibre(on)),
            SysRequest::SyncNow => DeviceAsk::Net(NetCommand::SyncNow),
            SysRequest::WifiOn => DeviceAsk::Net(NetCommand::WifiOn),
            SysRequest::WifiOff => DeviceAsk::Net(NetCommand::WifiOff),
            SysRequest::Hotspot => DeviceAsk::Net(NetCommand::Hotspot),
            SysRequest::WifiScan => DeviceAsk::Net(NetCommand::Scan),
            SysRequest::WifiJoin { ssid, password } => DeviceAsk::Net(NetCommand::Join { ssid, password }),
            SysRequest::WifiForget(ssid) => DeviceAsk::Net(NetCommand::Forget(ssid)),
            SysRequest::Fetch(f) => DeviceAsk::Net(NetCommand::Fetch(f)),
            SysRequest::Ota(src) => {
                let v = text::chars_of(&src);
                if v.len() > 0 && v[0] == '/' {
                    DeviceAsk::Install(src)
                } else {
                    DeviceAsk::Net(NetCommand::Ota(src))
                }
            },
        }
    }

    /// The books to take in were listed.
    pub fn queue(&mut self, pending: Vec<BookId>)
        ensures
            *final(self) == (Device { ingest_queue: pending, ..*old(self) }),
    {
        self.ingest_queue = pending;
    }

    /// What the net task is told of the screen on top: whether it is the reading page, where that changed.
    pub fn page(&mut self, top: &str) -> (r: Option<NetCommand>)
        ensures
            r == page_told(old(self).reading_up, top@),
            final(self).reading_up == is_reading_page(top@),
            ({
                let on_page = top@ == "20-reading"@;
                &&& *final(self) == (Device { reading_up: on_page, ..*old(self) })
                &&& r == if on_page != old(self).reading_up {
                    Some(NetCommand::Reading(on_page))
                } else {
                    None
                }
            }),
    {
        let on_page = text::same(top, "20-reading");
        if on_page != self.reading_up {
            self.reading_up = on_page;
            Some(NetCommand::Reading(on_page))
        } else {
            None
        }
    }

    /// Whether a frame just shown is mirrored to the page: where that is wanted, twice a second at most.
    pub fn mirrors(&mut self, now: u32, wanted: bool) -> (r: bool)
        ensures
            r == mirror_due(old(self).last_mirror, now, wanted),
            r == (wanted && now.wrapping_sub(old(self).last_mirror) >= 500),
            *final(self) == if r {
                Device { last_mirror: now, ..*old(self) }
            } else {
                *old(self)
            },
    {
        if wanted && now.wrapping_sub(self.last_mirror) >= 500 {
            self.last_mirror = now;
            true
        } else {
            false
        }
    }

    /// One unit of work for an idle pass. `indexed` says of the open book, if there is one, whether its pages are all
    /// indexed.
    pub fn work(&mut self, indexed: Option<bool>) -> (r: Work)
        ensures
            r == next_work(old(self).scanned, old(self).ingest_queue@, indexed),
            r == if !old(self).scanned {
                Work::Scan
            } else if indexed == Some(false) {
                Work::Index
            } else if old(self).ingest_queue@.len() > 0 {
                Work::Ingest(old(self).ingest_queue@.last())
            } else if indexed is Some {
                Work::Prefetch
            } else {
                Work::Nothing
            },
            final(self).ingest_queue@ == if r is Ingest {
                old(self).ingest_queue@.drop_last()
            } else {
                old(self).ingest_queue@
            },
            final(self).scanned,
            final(self).last_tick == old(self).last_tick,
            final(self).last_battery == old(self).last_battery,
            final(self).last_activity == old(self).last_activity,
            final(self).timer_due == old(self).timer_due,
            final(self).last_mirror == old(self).last_mirror,
            final(self).reading_up == old(self).reading_up,
    {
        if !self.scanned {
            self.scanned = true;
            return Work::Scan;
        }
        let unindexed = match indexed {
            Some(all) => !all,
            None => false,
        };
        if unindexed {
            return Work::Index;
        }
        match self.ingest_queue.pop() {
            Some(id) => Work::Ingest(id),
            None => {
                if indexed.is_some() {
                    Work::Prefetch
                } else {
                    Work::Nothing
                }
            },
        }
    }

    /// Whether the loop may nap instead of spinning: nothing touches a key, the radio is off, the device is not on
    /// USB power, and the reader has settled on a page.
    pub fn can_nap(&self, touched: bool, wifi: &WifiState, battery: &Battery, now: u32) -> (r: bool)
        ensures
            r == self.may_nap(touched, *wifi, *battery, now),
            r == (!touched && *wifi is Off && !battery.charging && now.wrapping_sub(self.last_activity) >= NAP_AFTER_MS),
    {
        !touched && matches!(wifi, WifiState::Off) && !battery.charging && now.wrapping_sub(self.last_activity)
            >= NAP_AFTER_MS
    }
}

/// Whether a scan of the card changed the library.
pub fn scan_changed(added: u32, missing: u32, returned: u32) -> (r: bool)
    ensures
        r == (added > 0 || missing > 0 || returned > 0),
{
    added > 0 || missing > 0 || returned > 0
}

/// The percentage of a book the status shows: of a permille, never above 100.
pub open spec fn shown_percent(permille: u32) -> int {
    if permille / 10 > 100 {
        100
    } else {
        permille as int / 10
    }
}

/// The percentage of a book the status shows: of a permille, never above 100.
pub fn book_percent(permille: u32) -> (r: u8)
    ensures
        r == shown_percent(permille),
{
    if permille / 10 > 100 {
        100
    } else {
        (permille / 10) as u8
    }
}

/// What the net task tells the main loop.
#[derive(Debug, PartialEq, Eq)]
pub enum NetToMain {
    /// An event for the interface.
    Ui(Event),
    /// The saved networks.
    SavedNetworks(Vec<String>),
    /// The settings were written by the Drop page.
    SettingsChanged,
    /// The time, in seconds since 1970, UTC.
    TimeSync(u32),
    /// The frame is wanted in a file.
    ScreenRequest,
}

/// What a report of the net task leads to.
#[derive(Debug, PartialEq, Eq)]
pub enum Heard {
    /// Keep the Wi-Fi state the event carries, if it does, and hand the event to the interface; then look for an
    /// update on the card and install it, if so told.
    Handle(Event, bool),
    /// Keep the names of the saved networks.
    Networks(Vec<String>),
    /// Read the settings again, and redraw.
    Reload,
    /// Set the clock and the clock chip.
    SetTime(u32),
    /// Write the frame, and say whether it could be.
    WriteScreen,
    /// Nothing.
    Nothing,
}

/// How far the local clock is from UTC, as the zone it implies: to the nearest quarter of an hour.
pub open spec fn zone_offset(local: int, utc: int) -> int {
    let diff = local - utc;
    widgets::quotient(diff + if diff >= 0 { QUARTER / 2 } else { -(QUARTER / 2) }, QUARTER as int) * QUARTER
}

/// The local time a network time corrects the clock to, if it is off by two seconds at least. An unset clock is left
/// for the wizard, since the zone is unknown.
pub open spec fn corrected(local: u32, utc: u32, is_set: bool) -> Option<u32> {
    let c = (utc + zone_offset(local as int, utc as int)) as u32;
    if is_set && local > SYNC_AFTER && (c - local >= 2 || local - c >= 2) {
        Some(c)
    } else {
        None
    }
}

/// Correct the clock from a network time: the RTC keeps local time and there is no zone setting, so the offset the
/// user's clock implies is kept, and the drift corrected. `is_set` says that the clock was set at boot, or by the user
/// since.
pub fn time_sync(local: u32, utc: u32, is_set: bool) -> (r: Option<u32>)
    ensures
        r == corrected(local, utc, is_set),
{
    if !is_set || local <= SYNC_AFTER {
        return None;
    }
    let diff: i64 = local as i64 - utc as i64;
    let offset: i64 = if diff >= 0 {
        proof {
            let a = diff + 450;
            assert(a / 900 * 900 <= a) by (nonlinear_arith);
        }
        (diff + QUARTER / 2) / QUARTER * QUARTER
    } else {
        proof {
            let a = 450 - diff;
            assert(a / 900 * 900 <= a) by (nonlinear_arith);
        }
        -((QUARTER / 2 - diff) / QUARTER * QUARTER)
    };
    assert(offset == zone_offset(local as int, utc as int)) by {
        if diff < 0 {
            assert(-(diff + -450) == 450 - diff);
            assert(-((450 - diff) / 900 * 900) == -((450 - diff) / 900) * 900) by (nonlinear_arith);
        }
    }
    let c: u32 = (utc as i64 + offset) as u32;
    if (c > local && c - local >= 2) || (local > c && local - c >= 2) {
        Some(c)
    } else {
        None
    }
}

/// A corrected clock stays a whole number of quarter hours from UTC, and moves by half of one at most.
pub proof fn law_sync_keeps_the_zone(local: u32, utc: u32)
    requires
        local <= u32::MAX - QUARTER,
        corrected(local, utc, true) is Some,
    ensures
        (corrected(local, utc, true)->0 - utc) % (QUARTER as int) == 0,
        -(QUARTER / 2) <= corrected(local, utc, true)->0 - local <= QUARTER / 2,
{
    let diff = local - utc;
    let o = zone_offset(local as int, utc as int);
    if diff >= 0 {
        let q = (diff + 450) / 900;
        assert(o == q * 900);
    } else {
        let q = (450 - diff) / 900;
        assert(o == -q * 900);
    }
}

/// An unset clock is left for the wizard: where nothing told the time at boot, no network time corrects the clock,
/// however long it has run since.
pub proof fn law_unset_clock_is_left_alone(kept: Option<u32>, local: u32, utc: u32)
    requires
        kept is None || kept->0 <= CLOCK_SET_AFTER,
    ensures
        time_at_boot(None, kept).now == FIRST_EPOCH,
        corrected(local, utc, time_at_boot(None, kept).is_set) is None,
{
}

/// Whether an event says that an update was fetched to the card.
pub open spec fn is_fetched_update(ev: Event) -> bool {
    ev matches Event::Net(NetEvent::OtaProgress { finished: Some(Ok(())), .. })
}

/// Handle a report of the net task; `local_now` is the local time, and `is_set` says that the clock was set at boot, or
/// by the user since.
pub fn heard(msg: NetToMain, local_now: u32, is_set: bool) -> (r: Heard)
    ensures
        r == hears(msg, local_now, is_set),
        r == match msg {
            NetToMain::Ui(ev) => Heard::Handle(ev, is_fetched_update(ev)),
            NetToMain::SavedNetworks(names) => Heard::Networks(names),
            NetToMain::SettingsChanged => Heard::Reload,
            NetToMain::TimeSync(utc) => match corrected(local_now, utc, is_set) {
                Some(t) => Heard::SetTime(t),
                None => Heard::Nothing,
            },
            NetToMain::ScreenRequest => Heard::WriteScreen,
        },
{
    match msg {
        NetToMain::Ui(ev) => {
            let updated = match &ev {
                Event::Net(NetEvent::OtaProgress { finished: Some(Ok(())), .. }) => true,
                _ => false,
            };
            Heard::Handle(ev, updated)
        },
        NetToMain::SavedNetworks(names) => Heard::Networks(names),
        NetToMain::SettingsChanged => Heard::Reload,
        NetToMain::TimeSync(utc) => match time_sync(local_now, utc, is_set) {
            Some(t) => Heard::SetTime(t),
            None => Heard::Nothing,
        },
        NetToMain::ScreenRequest => Heard::WriteScreen,
    }
}

/// What an installation leads to.
#[derive(Debug, PartialEq, Eq)]
pub enum Install {
    /// Tell the interface, and go on.
    Tell(NetEvent),
    /// Tell the interface; it failed.
    Failed(NetEvent),
    /// Tell the interface, save everything, and restart into the update.
    Restart(NetEvent),
    /// Go on.
    Nothing,
}

/// The percentage that stands for none shown yet.
pub const NONE_SHOWN: u32 = 0xffff_ffff;

/// An update being installed from the card into the other slot: the percentage shown last.
#[derive(Clone, Copy, Debug, PartialEq, Eq, Structural)]
pub struct InstallProgress {
    /// The percentage shown last.
    pub shown: u32,
}

impl InstallProgress {
    /// Whether a percentage is shown: the first, the last, and each that is 5 on from the one before.
    pub open spec fn shows(self, pct: u32) -> bool {
        pct != self.shown && (pct == 100 || self.shown == NONE_SHOWN || pct.wrapping_sub(self.shown) >= 5)
    }

    /// Begin to install, if the flash is to be had; else what is told instead.
    pub fn begin(flash: bool) -> (r: Result<InstallProgress, Install>)
        ensures
            match r {
                Ok(p) => flash && p == (InstallProgress { shown: NONE_SHOWN }),
                Err(i) => !flash && is_failure(i, "flash unavailable"@),
            },
    {
        if flash {
            Ok(InstallProgress { shown: NONE_SHOWN })
        } else {
            Err(failure(text::owned("flash unavailable")))
        }
    }

    /// A percentage is reached.
    pub fn reached(&mut self, pct: u32) -> (r: Install)
        ensures
            r is Tell == old(self).shows(pct),
            r == if old(self).shows(pct) {
                Install::Tell(NetEvent::OtaProgress { done: pct as u64, total: 100, finished: None })
            } else {
                Install::Nothing
            },
            final(self).shown == if old(self).shows(pct) {
                pct
            } else {
                old(self).shown
            },
    {
        if pct != self.shown && (pct == 100 || self.shown == NONE_SHOWN || pct.wrapping_sub(self.shown) >= 5) {
            self.shown = pct;
            Install::Tell(NetEvent::OtaProgress { done: pct as u64, total: 100, finished: None })
        } else {
            Install::Nothing
        }
    }

    /// The update was written, or why it could not be.
    pub fn ended(self, result: Result<(), String>) -> (r: Install)
        ensures
            is_end(result, r),
            match result {
                Ok(_) => r == Install::Restart(NetEvent::OtaProgress { done: 100, total: 100, finished: Some(Ok(())) }),
                Err(e) => is_failure(r, e@),
            },
    {
        match result {
            Ok(_) => Install::Restart(NetEvent::OtaProgress { done: 100, total: 100, finished: Some(Ok(())) }),
            Err(e) => failure(e),
        }
    }
}

/// Whether an installation is told to have failed for this reason.
pub open spec fn is_failure(i: Install, why: Seq<char>) -> bool {
    i matches Install::Failed(NetEvent::OtaProgress { done, total, finished }) && done == 0 && total == 100 && (finished matches Some(
        Err(e),
    ) && e@ == why)
}

fn failure(why: String) -> (r: Install)
    ensures
        is_failure(r, why@),
{
    Install::Failed(NetEvent::OtaProgress { done: 0, total: 100, finished: Some(Err(why)) })
}

/// An installation that has counted up from 0, by one, through the first `n` percentages.
pub open spec fn counted(n: nat) -> InstallProgress
    decreases n,
{
    if n == 0 {
        InstallProgress { shown: NONE_SHOWN }
    } else {
        let before = counted((n - 1) as nat);
        if before.shows((n - 1) as u32) {
            InstallProgress { shown: (n - 1) as u32 }
        } else {
            before
        }
    }
}

proof fn lemma_counted(n: nat)
    requires
        n <= 100,
    ensures
        counted(n).shown == if n == 0 {
            NONE_SHOWN as int
        } else {
            (n - 1) / 5 * 5
        },
    decreases n,
{
    if n > 0 {
        lemma_counted((n - 1) as nat);
    }
}

/// An installation that counts up by one shows every fifth percentage, the last among them, and no other.
pub proof fn law_installs_show_every_fifth(pct: u32)
    requires
        pct <= 100,
    ensures
        counted(pct as nat).shows(pct) == (pct % 5 == 0),
{
    lemma_counted(pct as nat);
}

/// How full the heap is, in bytes.
#[derive(Clone, Copy, Debug, PartialEq, Eq, Structural)]
pub struct Heap {
    /// In all.
    pub size: u32,
    /// In use.
    pub used: u32,
    /// Free, in the largest piece.
    pub largest: u32,
}

/// What the Drop page reports of the device, refreshed once a second.
#[derive(Debug, PartialEq, Eq)]
pub struct StatusInfo {
    /// Percent 0–100.
    pub battery_percent: u8,
    /// Whether charging.
    pub charging: bool,
    /// Firmware version.
    pub version: String,
    /// Build.
    pub build: String,
    /// The open book's title, if one is open.
    pub book_title: Option<String>,
    /// How far it is read.
    pub book_percent: u8,
    /// The device's name.
    pub hostname: String,
    /// Free heap.
    pub heap_free: u32,
    /// Largest free piece of it.
    pub heap_largest: u32,
    /// Seconds since the device started.
    pub uptime: u32,
    /// Local time.
    pub local_now: u32,
    /// Whether the reading page is up.
    pub reading: bool,
}

/// What the Drop page reports. `book` is the open book's title and how far it is read, in permille; `build` is the
/// build stamp, and the version.
pub fn publish_status(
    battery: &Battery,
    build: &str,
    book: Option<(String, u32)>,
    hostname: &str,
    heap: Heap,
    now: u32,
    local_now: u32,
    reading: bool,
) -> (r: StatusInfo)
    requires
        heap.used <= heap.size,
    ensures
        r.battery_percent == battery.percent,
        r.charging == battery.charging,
        r.version@ == build@,
        r.build@ == build@,
        match book {
            Some((title, permille)) => r.book_title == Some(title) && r.book_percent == shown_percent(permille),
            None => r.book_title is None && r.book_percent == 0,
        },
        r.hostname@ == hostname@,
        r.heap_free == heap.size - heap.used,
        r.heap_largest == heap.largest,
        r.uptime == now / 1000,
        r.local_now == local_now,
        r.reading == reading,
{
    let (book_title, percent): (Option<String>, u8) = match book {
        Some((title, permille)) => (Some(title), book_percent(permille)),
        None => (None, 0),
    };
    StatusInfo {
        battery_percent: battery.percent,
        charging: battery.charging,
        version: text::owned(build),
        build: text::owned(build),
        book_title,
        book_percent: percent,
        hostname: text::owned(hostname),
        heap_free: heap.size - heap.used,
        heap_largest: heap.largest,
        uptime: now / 1000,
        local_now,
        reading,
    }
}

/// What a light sleep does to the card's rail before a slice.
#[derive(Clone, Copy, Debug, PartialEq, Eq, Structural)]
pub enum Rail {
    /// Bring the card back.
    Up,
    /// Cut it and hold it down.
    Down,
    /// Leave it.
    Same,
}

/// What follows a slice of light sleep.
#[derive(Clone, Copy, Debug, PartialEq, Eq, Structural)]
pub enum AfterSlice {
    /// Wake, once the key is released; bring the card back first if so told.
    Wake(bool),
    /// Power down for good.
    DeepSleep,
    /// Give the sleep screen its tick, and sleep on.
    Tick,
}

/// Light sleep in slices until the Power key wakes the device, or deep sleep once the power-off timeout passes.
#[derive(Clone, Copy, Debug, PartialEq, Eq, Structural)]
pub struct LightSleep {
    /// Power down after this long; never at 0.
    pub off_after_ms: u32,
    /// Slept so far.
    pub slept_ms: u32,
    /// Whether the card's rail is down.
    pub card_off: bool,
}

/// Minutes in milliseconds, or as many as can be counted.
pub open spec fn minutes_ms(min: u32) -> int {
    if min * 60_000 > u32::MAX {
        u32::MAX as int
    } else {
        min * 60_000
    }
}

/// What follows a slice, by how often the Power key was down in six samples.
pub open spec fn after_slice(s: LightSleep, down: u32) -> AfterSlice {
    if down >= 4 {
        AfterSlice::Wake(s.card_off)
    } else if s.off_after_ms > 0 && s.slept_ms >= s.off_after_ms {
        AfterSlice::DeepSleep
    } else {
        AfterSlice::Tick
    }
}

/// The rail before a slice: the card is brought back where the sleep screen needs it, and cut once it is not needed
/// and the sleep has lasted.
pub open spec fn rail_before(s: LightSleep, needs_fs: bool) -> Rail {
    if s.card_off && needs_fs {
        Rail::Up
    } else if !s.card_off && !needs_fs && s.slept_ms >= CARD_OFF_AFTER_MS {
        Rail::Down
    } else {
        Rail::Same
    }
}

/// A light sleep after its rail was seen to.
pub open spec fn railed(s: LightSleep, needs_fs: bool) -> LightSleep {
    LightSleep {
        card_off: match rail_before(s, needs_fs) {
            Rail::Up => false,
            Rail::Down => true,
            Rail::Same => s.card_off,
        },
        ..s
    }
}

/// A light sleep after another slice.
pub open spec fn sliced(s: LightSleep) -> LightSleep {
    LightSleep {
        slept_ms: if s.slept_ms + SLICE_MS > u32::MAX {
            u32::MAX
        } else {
            (s.slept_ms + SLICE_MS) as u32
        },
        ..s
    }
}

impl LightSleep {
    /// Fall asleep; power down after so many minutes, never at 0.
    pub fn new(power_off_after_min: u32) -> (r: Self)
        ensures
            r == (LightSleep {
                off_after_ms: minutes_ms(power_off_after_min) as u32,
                slept_ms: 0,
                card_off: false,
            }),
    {
        let ms: u64 = power_off_after_min as u64 * 60_000;
        let off_after_ms: u32 = if ms > u32::MAX as u64 { u32::MAX } else { ms as u32 };
        LightSleep { off_after_ms, slept_ms: 0, card_off: false }
    }

    /// Before a slice: what to do to the card's rail. `needs_fs` says that the sleep screen's next tick reads the
    /// card.
    pub fn before(&mut self, needs_fs: bool) -> (r: Rail)
        ensures
            r == rail_before(*old(self), needs_fs),
            *final(self) == railed(*old(self), needs_fs),
    {
        if self.card_off && needs_fs {
            self.card_off = false;
            Rail::Up
        } else if !self.card_off && !needs_fs && self.slept_ms >= CARD_OFF_AFTER_MS {
            self.card_off = true;
            Rail::Down
        } else {
            Rail::Same
        }
    }

    /// After a slice; the Power key was down in so many of six samples, and has to be down for a moment to count.
    pub fn after(&mut self, down: u32) -> (r: AfterSlice)
        ensures
            *final(self) == sliced(*old(self)),
            r == after_slice(sliced(*old(self)), down),
    {
        self.slept_ms = self.slept_ms.saturating_add(SLICE_MS);
        if down >= 4 {
            AfterSlice::Wake(self.card_off)
        } else if self.off_after_ms > 0 && self.slept_ms >= self.off_after_ms {
            AfterSlice::DeepSleep
        } else {
            AfterSlice::Tick
        }
    }
}

/// A tick that reads the card always finds its rail up; and the rail stays up for the first two minutes.
pub proof fn law_card_is_up_when_needed(s: LightSleep, needs_fs: bool)
    requires
        s.card_off ==> s.slept_ms >= CARD_OFF_AFTER_MS,
    ensures
        needs_fs ==> !railed(s, needs_fs).card_off,
        railed(s, needs_fs).card_off ==> s.slept_ms >= CARD_OFF_AFTER_MS,
        sliced(railed(s, needs_fs)).card_off ==> sliced(railed(s, needs_fs)).slept_ms >= CARD_OFF_AFTER_MS,
{
}

/// Slices of light sleep, one after the other.
pub open spec fn slices(s: LightSleep, needs_fs: Seq<bool>, n: int) -> LightSleep
    decreases n,
{
    if n <= 0 {
        s
    } else {
        sliced(railed(slices(s, needs_fs, n - 1), needs_fs[n - 1]))
    }
}

proof fn lemma_slices(s: LightSleep, needs_fs: Seq<bool>, n: int)
    requires
        s.slept_ms == 0,
        0 <= n,
    ensures
        slices(s, needs_fs, n).off_after_ms == s.off_after_ms,
        slices(s, needs_fs, n).slept_ms == if n * SLICE_MS > u32::MAX {
            u32::MAX as int
        } else {
            n * SLICE_MS
        },
    decreases n,
{
    if n > 0 {
        lemma_slices(s, needs_fs, n - 1);
    }
}

/// A device left alone powers down with the first slice that reaches the timeout, and not before; never where there
/// is no timeout.
pub proof fn law_powers_down_on_time(min: u32, needs_fs: Seq<bool>, n: int)
    requires
        1 <= n,
    ensures
        ({
            let s = LightSleep { off_after_ms: minutes_ms(min) as u32, slept_ms: 0, card_off: false };
            after_slice(slices(s, needs_fs, n), 0) == if min > 0 && n * SLICE_MS >= minutes_ms(min) {
                AfterSlice::DeepSleep
            } else {
                AfterSlice::Tick
            }
        }),
{
    let s = LightSleep { off_after_ms: minutes_ms(min) as u32, slept_ms: 0, card_off: false };
    lemma_slices(s, needs_fs, n);
}

/// What bringing the card back needs next.
#[derive(Clone, Copy, Debug, PartialEq, Eq, Structural)]
pub enum WakeCard {
    /// Try to acquire it; this is the attempt.
    Try(u32),
    /// Cut the rail for 200 ms, wait so many milliseconds with it up, then try again.
    Cycle(u32),
    /// It answers.
    Up,
    /// It does not answer; leave the rail up.
    Silent,
}

/// What follows an attempt to bring the card back: three are made, each with a longer wait before the next.
pub fn wake_card(attempt: u32, answered: bool) -> (r: WakeCard)
    requires
        1 <= attempt <= 3,
    ensures
        r == card_tried(attempt, answered),
        r == if answered {
            WakeCard::Up
        } else {
            WakeCard::Cycle((50 * attempt) as u32)
        },
{
    if answered {
        WakeCard::Up
    } else {
        WakeCard::Cycle(50 * attempt)
    }
}

/// What follows a power cycle of the card.
pub fn cycled(attempt: u32) -> (r: WakeCard)
    requires
        1 <= attempt <= 3,
    ensures
        r == card_cycled(attempt),
        r == if attempt < 3 {
            WakeCard::Try((attempt + 1) as u32)
        } else {
            WakeCard::Silent
        },
{
    if attempt < 3 {
        WakeCard::Try(attempt + 1)
    } else {
        WakeCard::Silent
    }
}

/// The timer a screen asks for is due when its time is up and at no moment before, however the clock wraps in
/// between.
pub proof fn law_timer_waits_its_time(now: u32, ms: u32, later: u32)
    requires
        0 < ms < 0x8000_0000,
        later < ms,
    ensures
        has_come(now.wrapping_add(ms), now.wrapping_add(ms)),
        !has_come(now.wrapping_add(ms), now.wrapping_add(later)),
{
}

impl Device {
    /// Whether nothing was done for as many minutes as the reader waits before it sleeps.
    pub open spec fn is_left_alone(self, now: u32, asleep: bool, sleep_after_min: u32) -> bool {
        !asleep && sleep_after_min > 0 && now.wrapping_sub(self.last_activity) / 60_000 >= sleep_after_min
    }

    /// Whether the reader may doze between two looks at its keys.
    pub open spec fn may_nap(self, touched: bool, wifi: WifiState, battery: Battery, now: u32) -> bool {
        !touched && wifi is Off && !battery.charging && now.wrapping_sub(self.last_activity) >= NAP_AFTER_MS
    }
}

/// What is done next in the background.
pub open spec fn next_work(scanned: bool, queue: Seq<BookId>, indexed: Option<bool>) -> Work {
    if !scanned {
        Work::Scan
    } else if indexed == Some(false) {
        Work::Index
    } else if queue.len() > 0 {
        Work::Ingest(queue.last())
    } else if indexed is Some {
        Work::Prefetch
    } else {
        Work::Nothing
    }
}

/// Whether a start is not the aftermath of a crash.
pub open spec fn boots_cleanly(reset: Option<ResetReason>, woke: bool) -> bool {
    woke || reset == Some(ResetReason::PowerOn) || reset == Some(ResetReason::DeepSleep)
}

/// Whether the image that runs is given up for the one before.
pub open spec fn is_rolled_back(safe_mode: bool, state: Option<ImageState>) -> bool {
    safe_mode && (state == Some(ImageState::New) || state == Some(ImageState::PendingVerify))
}

/// What comes of asking the card whether it is awake.
pub open spec fn card_tried(attempt: u32, answered: bool) -> WakeCard {
    if answered {
        WakeCard::Up
    } else {
        WakeCard::Cycle((50 * attempt) as u32)
    }
}

/// What comes after its power was cycled.
pub open spec fn card_cycled(attempt: u32) -> WakeCard {
    if attempt < 3 {
        WakeCard::Try((attempt + 1) as u32)
    } else {
        WakeCard::Silent
    }
}

/// What is done about what the network has told.
pub open spec fn hears(msg: NetToMain, local_now: u32, is_set: bool) -> Heard {
    match msg {
        NetToMain::Ui(ev) => Heard::Handle(ev, is_fetched_update(ev)),
        NetToMain::SavedNetworks(names) => Heard::Networks(names),
        NetToMain::SettingsChanged => Heard::Reload,
        NetToMain::TimeSync(utc) => match corrected(local_now, utc, is_set) {
            Some(t) => Heard::SetTime(t),
            None => Heard::Nothing,
        },
        NetToMain::ScreenRequest => Heard::WriteScreen,
    }
}

impl RecoveryHold {
    /// What comes of a look at the Back key while the reader starts.
    pub open spec fn sampled(self, mv: u16) -> (RecoveryHold, Hold) {
        if keys::decoded(keys::GROUP1@, keys::IDLE_ABOVE, mv, keys::WINDOW1) == Some(Key::Back) {
            (
                RecoveryHold { held: (self.held + 1) as u32 },
                if self.held + 1 >= RECOVERY_SAMPLES {
                    Hold::Recover
                } else {
                    Hold::Again
                },
            )
        } else {
            (self, Hold::Boot)
        }
    }
}

/// Whether this screen is the page of a book.
pub open spec fn is_reading_page(top: Seq<char>) -> bool {
    top == "20-reading"@
}

/// What the network is told about the screen on top.
pub open spec fn page_told(was_up: bool, top: Seq<char>) -> Option<NetCommand> {
    if is_reading_page(top) != was_up {
        Some(NetCommand::Reading(is_reading_page(top)))
    } else {
        None
    }
}

/// The network is told once that a page came up and once that it went away.
pub proof fn law_pages_are_told_once(was_up: bool, top: Seq<char>)
    ensures
        top == "20-reading"@ && !was_up ==> page_told(was_up, top) == Some(NetCommand::Reading(true)),
        top != "20-reading"@ && was_up ==> page_told(was_up, top) == Some(NetCommand::Reading(false)),
        page_told(is_reading_page(top), top) is None,
{
}

/// The reader falls asleep once as many minutes have passed as are set, not before, and never where none are set; what
/// is done in between starts the minutes anew.
pub proof fn law_sleep_comes_when_left_alone(d: Device, minutes: u32, idle: u32)
    requires
        0 < minutes <= 60,
    ensures
        d.is_left_alone(d.last_activity.wrapping_add(idle), false, minutes) <==> idle >= minutes * 60_000,
        !d.is_left_alone(d.last_activity.wrapping_add(idle), false, 0),
        !d.is_left_alone(d.last_activity.wrapping_add(idle), true, minutes),
{
    assert(d.last_activity.wrapping_add(idle).wrapping_sub(d.last_activity) == idle);
}

/// The reader dozes only with no key down, the radio off, no charger, and a second and a half after anything was done.
pub proof fn law_naps_disturb_nothing(d: Device, touched: bool, wifi: WifiState, battery: Battery, idle: u32)
    ensures
        d.may_nap(touched, wifi, battery, d.last_activity.wrapping_add(idle)) <==> !touched && wifi == WifiState::Off
            && !battery.charging && idle >= 1_500,
{
    assert(d.last_activity.wrapping_add(idle).wrapping_sub(d.last_activity) == idle);
}

/// Background work goes in turn: the card is looked through first, then a book that is open is finished, then books
/// are taken in, one after the other, each once; only then is anything fetched ahead.
pub proof fn law_work_goes_in_turn(scanned: bool, queue: Seq<BookId>, indexed: Option<bool>)
    ensures
        next_work(scanned, queue, indexed) is Scan <==> !scanned,
        next_work(scanned, queue, indexed) is Index <==> scanned && indexed == Some(false),
        next_work(scanned, queue, indexed) is Ingest ==> queue.len() > 0 && next_work(scanned, queue, indexed)
            == Work::Ingest(queue[queue.len() - 1]),
        next_work(scanned, queue, indexed) is Prefetch ==> queue.len() == 0 && indexed == Some(true),
        next_work(scanned, queue, indexed) is Nothing ==> scanned && queue.len() == 0 && indexed is None,
{
}

/// A start after a crash is told from one by the power key, out of deep sleep or by waking; only an image that was
/// never found good is given up, and only where starting failed.
pub proof fn law_crashes_are_told_apart(reset: Option<ResetReason>, woke: bool, safe_mode: bool, state: Option<ImageState>)
    ensures
        !boots_cleanly(reset, woke) <==> !woke && (reset is None || reset->0 is Other),
        is_rolled_back(safe_mode, state) ==> safe_mode && state is Some && !(state->0 is Valid) && !(state->0 is Invalid),
        is_rolled_back(true, Some(ImageState::New)) && is_rolled_back(true, Some(ImageState::PendingVerify)),
        !is_rolled_back(true, Some(ImageState::Valid)),
{
}

/// A card is asked three times, its power cycled for longer each time it is silent, and then given up.
pub proof fn law_card_is_asked_three_times(attempt: u32)
    requires
        1 <= attempt <= 3,
    ensures
        card_tried(attempt, true) == WakeCard::Up,
        card_tried(attempt, false) matches WakeCard::Cycle(ms) && ms == attempt * 50,
        attempt < 3 ==> card_cycled(attempt) == WakeCard::Try((attempt + 1) as u32),
        attempt == 3 ==> card_cycled(attempt) == WakeCard::Silent,
{
}

/// Ten looks in a row that find Back down start the recovery; the first that does not lets the reader start.
pub proof fn law_back_held_ten_looks_recovers(h: RecoveryHold, mv: u16)
    requires
        h.held < 10,
    ensures
        keys::decoded(keys::GROUP1@, keys::IDLE_ABOVE, mv, keys::WINDOW1) != Some(Key::Back) ==> h.sampled(mv).1 == Hold::Boot,
        keys::decoded(keys::GROUP1@, keys::IDLE_ABOVE, mv, keys::WINDOW1) == Some(Key::Back) ==> h.sampled(mv).0.held == h.held + 1
            && (h.sampled(mv).1 == Hold::Recover <==> h.held == 9) && (h.held < 9 ==> h.sampled(mv).1 == Hold::Again),
{
}

/// What the network tells comes where it belongs: events to the screens, the networks kept to the list, a new time to
/// the clock where it is off, and a wish for the screen to whoever writes it.
pub proof fn law_news_come_where_they_belong(ev: Event, names: Vec<String>, utc: u32, local: u32, is_set: bool)
    ensures
        hears(NetToMain::Ui(ev), local, is_set) matches Heard::Handle(e, _) && e == ev,
        hears(NetToMain::SavedNetworks(names), local, is_set) == Heard::Networks(names),
        hears(NetToMain::SettingsChanged, local, is_set) == Heard::Reload,
        hears(NetToMain::ScreenRequest, local, is_set) == Heard::WriteScreen,
        corrected(local, utc, is_set) is None ==> hears(NetToMain::TimeSync(utc), local, is_set) == Heard::Nothing,
        corrected(local, utc, is_set) matches Some(t) ==> hears(NetToMain::TimeSync(utc), local, is_set) == Heard::SetTime(t),
{
}

/// The clock that runs is believed first, then the time that was kept over a reset, where it can be one; a time that is
/// believed is set.
pub proof fn law_running_clock_is_believed(t: u32, kept: Option<u32>)
    ensures
        time_at_boot(Some(t), kept) == (BootTime { now: t, is_set: true }),
        t > 1_600_000_000 ==> time_at_boot(None, Some(t)) == (BootTime { now: t, is_set: true }),
        t <= 1_600_000_000 ==> !time_at_boot(None, Some(t)).is_set,
        !time_at_boot(None, None).is_set,
{
}

/// The share of a book on the page's status is in whole percents rounded down, a hundred at most.
pub proof fn law_shown_percent_is_the_share(permille: u32)
    ensures
        permille <= 1000 ==> 10 * shown_percent(permille) <= permille < 10 * shown_percent(permille) + 10,
        permille > 1000 ==> shown_percent(permille) == 100,
{
}

/// A serial number is two hexadecimal digits for each byte, which read back as it.
pub proof fn law_serial_reads_back(bytes: Seq<u8>, i: int)
    requires
        0 <= i < bytes.len(),
    ensures
        hex_text(bytes).len() == 2 * bytes.len(),
        forall|k: int| 0 <= k < 16 ==> '0' <= #[trigger] hex_digit(k) <= 'F',
        hex_text(bytes)[2 * i] == hex_digit(bytes[i] as int / 16),
        hex_text(bytes)[2 * i + 1] == hex_digit(bytes[i] as int % 16),
        crate::routes::hex_value(hex_digit(bytes[i] as int / 16) as u8) == Some(bytes[i] as int / 16),
        crate::routes::hex_value(hex_digit(bytes[i] as int % 16) as u8) == Some(bytes[i] as int % 16),
{
    assert((2 * i) / 2 == i && (2 * i) % 2 == 0 && (2 * i + 1) / 2 == i && (2 * i + 1) % 2 == 1);
}

/// A request of a screen is handed on as what it is: what concerns the network to the network, an update on the card to
/// the installer, and everything else to the reader itself.
pub proof fn law_requests_are_handed_on(req: SysRequest, local_now: u32, ask: DeviceAsk)
    requires
        request_ask(req, local_now, ask),
    ensures
        ask is Sleep <==> req is Sleep,
        ask is PowerOff <==> req is PowerOff,
        ask is Restart <==> req is Restart,
        ask is Recovery <==> req is Recovery,
        ask is RefreshFull <==> req is RefreshFull,
        ask is ListPending <==> req is IngestNow,
        ask is Screenshot <==> req is Screenshot,
        req matches SysRequest::SetTime(t) ==> ask == DeviceAsk::SetTime(t),
        req is WifiOn ==> ask == DeviceAsk::Net(NetCommand::WifiOn),
        req is WifiOff ==> ask == DeviceAsk::Net(NetCommand::WifiOff),
        req is Hotspot ==> ask == DeviceAsk::Net(NetCommand::Hotspot),
        req is WifiScan ==> ask == DeviceAsk::Net(NetCommand::Scan),
        req is SyncNow ==> ask == DeviceAsk::Net(NetCommand::SyncNow),
        req matches SysRequest::Calibre(on) ==> ask == DeviceAsk::Net(NetCommand::Calibre(on)),
        req matches SysRequest::WifiJoin { ssid, password } ==> ask == DeviceAsk::Net(NetCommand::Join { ssid, password }),
        req matches SysRequest::WifiForget(ssid) ==> ask == DeviceAsk::Net(NetCommand::Forget(ssid)),
        req matches SysRequest::Fetch(f) ==> ask == DeviceAsk::Net(NetCommand::Fetch(f)),
        req matches SysRequest::Ota(src) ==> (ask == DeviceAsk::Install(src) <==> src@.len() > 0 && src@[0] == '/'),
        ask is Install ==> req is Ota,
{
}

/// Light sleep ends as soon as Power has been held for four looks, with the card brought back where it was off; else
/// it goes on until the time to power down.
pub proof fn law_power_ends_light_sleep(s: LightSleep, down: u32, needs_fs: bool)
    ensures
        down >= 4 ==> after_slice(s, down) == AfterSlice::Wake(s.card_off),
        down < 4 ==> !(after_slice(s, down) is Wake),
        down < 4 && s.off_after_ms == 0 ==> after_slice(s, down) == AfterSlice::Tick,
        s.slept_ms < 1_000_000_000 ==> sliced(s).slept_ms == s.slept_ms + 30_000,
        !s.card_off && !needs_fs && s.slept_ms >= 120_000 ==> railed(s, needs_fs).card_off,
        !s.card_off && s.slept_ms < 120_000 ==> !railed(s, needs_fs).card_off,
        rail_before(s, needs_fs) is Up <==> s.card_off && needs_fs,
        rail_before(s, needs_fs) is Down <==> !s.card_off && railed(s, needs_fs).card_off,
{
}

/// A message fills the screen with its title and every one of its lines.
pub proof fn law_messages_are_written_whole(s: Sheet, title: Seq<char>, lines: Seq<Seq<char>>, k: int)
    requires
        0 <= k < lines.len(),
    ensures
        crate::draw::shows(message_ops(s, title, lines), title),
        crate::draw::shows(message_ops(s, title, lines), lines[k]),
        message_ops(s, title, lines)[0] == crate::draw::fill(0, 0, s.w as int, s.h as int, Ink::White),
{
    broadcast use {
        crate::draw::lemma_shows_in_two,
        crate::draw::lemma_shows_pushed,
        crate::draw::lemma_shows_between_two,
        crate::draw::lemma_shows_between_pushed,
        crate::draw::lemma_written_in_two,
        crate::draw::lemma_written_pushed,
        crate::draw::lemma_draws_in_two,
        crate::draw::lemma_draws_pushed,
    };
    widgets::law_lines_are_all_written(Face::Body, 32, 360, 30, lines, lines.len() as int, k);
}

/// Whether a second has passed since the last tick.
pub open spec fn tick_due(last: u32, now: u32) -> bool {
    now.wrapping_sub(last) >= 1000
}

/// Whether it is time to look at the battery.
pub open spec fn battery_look_due(last: u32, now: u32) -> bool {
    now.wrapping_sub(last) >= 30_000
}

/// Whether the screen is shown on the page anew.
pub open spec fn mirror_due(last: u32, now: u32, wanted: bool) -> bool {
    wanted && now.wrapping_sub(last) >= 500
}

/// A tick comes each second, the battery is looked at each half minute, and the page shows the screen twice a second at
/// most, each counted from the last time and across the clock's overflow.
pub proof fn law_things_come_round_in_time(last: u32, passed: u32)
    ensures
        tick_due(last, last.wrapping_add(passed)) <==> passed >= 1000,
        battery_look_due(last, last.wrapping_add(passed)) <==> passed >= 30_000,
        mirror_due(last, last.wrapping_add(passed), true) <==> passed >= 500,
        !mirror_due(last, last.wrapping_add(passed), false),
{
    assert(last.wrapping_add(passed).wrapping_sub(last) == passed);
}

/// Whether this is what comes when an update was written, or could not be.
pub open spec fn is_end(result: Result<(), String>, r: Install) -> bool {
    match result {
        Ok(_) => r == Install::Restart(NetEvent::OtaProgress { done: 100, total: 100, finished: Some(Ok(())) }),
        Err(e) => is_failure(r, e@),
    }
}

/// An update that was written restarts the reader; one that could not be is told with the reason, and the reader goes on.
pub proof fn law_updates_restart_the_reader(result: Result<(), String>, r: Install)
    requires
        is_end(result, r),
    ensures
        r is Restart <==> result is Ok,
        r is Failed <==> result is Err,
        result matches Err(e) ==> (r matches Install::Failed(NetEvent::OtaProgress { done, total, finished }) && (finished matches Some(
            Err(why),
        ) && why@ == e@)),
{
}

/// Progress is shown from nothing on, at each fifth part of a hundred further, and at the end.
pub proof fn law_progress_is_shown_in_steps(p: InstallProgress, pct: u32)
    requires
        pct <= 100,
        p.shown <= 100,
    ensures
        (InstallProgress { shown: NONE_SHOWN }).shows(pct),
        pct == p.shown ==> !p.shows(pct),
        p.shown < pct < p.shown + 5 && pct < 100 ==> !p.shows(pct),
        pct >= p.shown + 5 ==> p.shows(pct),
        pct == 100 && p.shown < 100 ==> p.shows(pct),
{
}

/// Minutes are counted in milliseconds, and more of them than can be counted are as many as can.
pub proof fn law_minutes_in_milliseconds(min: u32)
    ensures
        min <= 71_582 ==> minutes_ms(min) == min * 60 * 1000,
        min > 71_582 ==> minutes_ms(min) == u32::MAX,
{
}

} // verus!
