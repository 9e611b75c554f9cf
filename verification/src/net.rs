//! The net task: it sleeps until a command needs the radio, then runs one *session* until Wi-Fi is turned off or
//! idles out.
//!
//! The platform drives the radio and the servers; when they run, what is published, and when a session ends is
//! decided here.
use vstd::prelude::*;

use crate::platform::{FetchRequest, WifiState};
use crate::text;
use crate::text::same;

verus! {

/// Idle time after which the radio goes off while the reader is on the page.
pub const IDLE_OFF_MS: u32 = 600_000;

/// How often a lost link is tried again before it is given up.
pub const MAX_RETRIES: u8 = 3;

/// How many characters a host name has at most.
pub const MAX_HOST: usize = 31;

/// What the main loop tells the net task.
#[derive(Clone, Debug, PartialEq, Eq)]
pub enum NetCommand {
    /// Turn the radio on and join a network.
    WifiOn,
    /// Turn the radio off.
    WifiOff,
    /// Look for networks.
    Scan,
    /// Join a network.
    Join {
        /// Name.
        ssid: String,
        /// Password.
        password: String,
    },
    /// Start the hotspot.
    Hotspot,
    /// Forget a saved network.
    Forget(String),
    /// Whether the reading page is the top screen.
    Reading(bool),
    /// Whether a keyboard is up.
    Typing(bool),
    /// Fetch something.
    Fetch(FetchRequest),
    /// Fetch an update.
    Ota(String),
    /// Start or stop the Calibre server.
    Calibre(bool),
    /// Sync now.
    SyncNow,
}

/// What a session does with the radio.
#[derive(Debug, PartialEq, Eq)]
pub enum Mode {
    /// Join this network and its password, or the best saved one.
    Station {
        /// Name and password.
        target: Option<(String, String)>,
    },
    /// Be an access point.
    Hotspot,
}

/// How a session ends.
#[derive(Debug, PartialEq, Eq)]
pub enum Outcome {
    /// The radio goes off.
    Off,
    /// Another session follows.
    Switch(Mode),
}

/// What outlives a session.
#[derive(Clone, Copy, Debug, PartialEq, Eq, Structural)]
pub struct Flags {
    /// The reading page is the top screen.
    pub reading: bool,
    /// A scan was asked for while the radio was off.
    pub scan_pending: bool,
}

impl Default for Flags {
    fn default() -> (r: Self)
        ensures
            r == (Flags { reading: false, scan_pending: false }),
    {
        Flags { reading: false, scan_pending: false }
    }
}

/// Whether a host name may hold a character.
pub open spec fn host_char(c: char) -> bool {
    ('0' <= c && c <= '9') || ('a' <= c && c <= 'z') || ('A' <= c && c <= 'Z') || c == '-'
}

/// The characters of a text that a host name may hold, in lower case, up to `max` of them.
pub open spec fn host_chars(s: Seq<char>, max: nat) -> Seq<char>
    decreases s.len(),
{
    if s.len() == 0 || max == 0 {
        Seq::empty()
    } else if host_char(s[0]) {
        seq![text::ascii_lower_char(s[0])] + host_chars(s.skip(1), (max - 1) as nat)
    } else {
        host_chars(s.skip(1), max)
    }
}

/// The host name a text stands for; "quire" where nothing of it is left.
pub open spec fn host_name(s: Seq<char>) -> Seq<char> {
    let h = host_chars(s, MAX_HOST as nat);
    if h.len() == 0 {
        "quire"@
    } else {
        h
    }
}

/// A host name mDNS and DHCP accept.
pub fn clean_hostname(s: &str) -> (r: String)
    ensures
        r@ == host_name(s@),
{
    let v = text::chars_of(s);
    let mut out = String::new();
    let mut n: usize = 0;
    let mut i: usize = 0;
    assert(v@.skip(0) =~= v@);
    assert(out@ + host_chars(v@, MAX_HOST as nat) =~= host_chars(v@, MAX_HOST as nat));
    while i < v.len() && n < MAX_HOST
        invariant
            i <= v@.len(),
            n <= MAX_HOST,
            out@.len() == n,
            host_chars(v@, MAX_HOST as nat) == out@ + host_chars(v@.skip(i as int), (MAX_HOST - n) as nat),
        decreases v@.len() - i,
    {
        let c: char = v[i];
        let ghost before = out@;
        assert(v@.skip(i as int).skip(1) =~= v@.skip(i + 1));
        if ('0' <= c && c <= '9') || ('a' <= c && c <= 'z') || ('A' <= c && c <= 'Z') || c == '-' {
            let low: char = text::lower_char(c);
            out.push(low);
            n += 1;
            assert(before + (seq![low] + host_chars(v@.skip(i + 1), (MAX_HOST - n) as nat)) =~= out@ + host_chars(
                v@.skip(i + 1),
                (MAX_HOST - n) as nat,
            ));
        }
        i += 1;
    }
    assert(out@ + Seq::<char>::empty() =~= out@);
    if n == 0 {
        text::owned("quire")
    } else {
        out
    }
}

proof fn lemma_host_chars(s: Seq<char>, max: nat)
    ensures
        host_chars(s, max).len() <= max,
        host_chars(s, max).len() <= s.len(),
        forall|i: int|
            0 <= i < host_chars(s, max).len() ==> host_char(#[trigger] host_chars(s, max)[i]) && !('A' <= host_chars(
                s,
                max,
            )[i] && host_chars(s, max)[i] <= 'Z'),
    decreases s.len(),
{
    if s.len() > 0 && max > 0 {
        if host_char(s[0]) {
            lemma_host_chars(s.skip(1), (max - 1) as nat);
        } else {
            lemma_host_chars(s.skip(1), max);
        }
    }
}

/// A host name is never empty or longer than 31 characters, and holds only digits, lower-case letters and hyphens.
pub proof fn law_host_names_are_clean(s: Seq<char>, i: int)
    requires
        0 <= i < host_name(s).len(),
    ensures
        0 < host_name(s).len() <= MAX_HOST,
        host_char(host_name(s)[i]),
        !('A' <= host_name(s)[i] && host_name(s)[i] <= 'Z'),
{
    reveal_strlit("quire");
    lemma_host_chars(s, MAX_HOST as nat);
}

proof fn lemma_host_chars_again(s: Seq<char>, max: nat)
    requires
        s.len() <= max,
        forall|i: int| 0 <= i < s.len() ==> host_char(#[trigger] s[i]) && !('A' <= s[i] && s[i] <= 'Z'),
    ensures
        host_chars(s, max) == s,
    decreases s.len(),
{
    if s.len() > 0 {
        lemma_host_chars_again(s.skip(1), (max - 1) as nat);
        assert(host_chars(s, max) =~= s);
    } else {
        assert(host_chars(s, max) =~= s);
    }
}

/// A host name stands for itself.
pub proof fn law_host_names_stay(s: Seq<char>)
    ensures
        host_name(host_name(s)) == host_name(s),
{
    reveal_strlit("quire");
    lemma_host_chars(s, MAX_HOST as nat);
    lemma_host_chars_again(host_name(s), MAX_HOST as nat);
}

/// What a command asks for that every mode handles the same way.
#[derive(Debug, PartialEq, Eq)]
pub enum Common {
    /// End the session with the radio off.
    Off,
    /// Forget this network, save the list if it was on it, and publish the names left.
    Forget(String),
    /// Tell the page whether a keyboard is up.
    Typing(bool),
    /// Queue the command for the fetch worker; whether it is running.
    Enqueue(NetCommand, bool),
    /// Nothing.
    Nothing,
}

/// What a command asks for in every mode.
pub open spec fn common_of(cmd: NetCommand, online: bool) -> Common {
    match cmd {
        NetCommand::WifiOff => Common::Off,
        NetCommand::Forget(ssid) => Common::Forget(ssid),
        NetCommand::Typing(b) => Common::Typing(b),
        NetCommand::Fetch(_) | NetCommand::Ota(_) | NetCommand::Calibre(_) | NetCommand::SyncNow => Common::Enqueue(
            cmd,
            online,
        ),
        _ => Common::Nothing,
    }
}

/// The flags after a command that every mode handles the same way.
pub open spec fn flags_after(cmd: NetCommand, flags: Flags) -> Flags {
    match cmd {
        NetCommand::Reading(b) => Flags { reading: b, ..flags },
        _ => flags,
    }
}

/// Handle a command in the way all modes share. `online` says a station session is running.
pub fn common(cmd: NetCommand, flags: &mut Flags, online: bool) -> (r: Common)
    ensures
        r == common_of(cmd, online),
        *final(flags) == flags_after(cmd, *old(flags)),
{
    match cmd {
        NetCommand::WifiOff => Common::Off,
        NetCommand::Forget(ssid) => Common::Forget(ssid),
        NetCommand::Reading(b) => {
            flags.reading = b;
            Common::Nothing
        },
        NetCommand::Typing(b) => Common::Typing(b),
        NetCommand::Fetch(_) | NetCommand::Ota(_) | NetCommand::Calibre(_) | NetCommand::SyncNow => Common::Enqueue(
            cmd,
            online,
        ),
        NetCommand::WifiOn | NetCommand::Scan | NetCommand::Join { .. } | NetCommand::Hotspot => Common::Nothing,
    }
}

/// What a command asks for while the radio is off.
#[derive(Debug, PartialEq, Eq)]
pub enum Idle {
    /// Start a session.
    Start(Mode),
    /// Stay off, and do this.
    Stay(Common),
}

/// Handle a command that arrives while the radio is off.
pub fn idle_command(cmd: NetCommand, flags: &mut Flags) -> (r: Idle)
    ensures
        r == idle_ask(cmd),
        r == match cmd {
            NetCommand::WifiOn | NetCommand::Scan => Idle::Start(Mode::Station { target: None }),
            NetCommand::Join { ssid, password } => Idle::Start(Mode::Station { target: Some((ssid, password)) }),
            NetCommand::Hotspot => Idle::Start(Mode::Hotspot),
            NetCommand::WifiOff => Idle::Stay(Common::Nothing),
            _ => Idle::Stay(common_of(cmd, false)),
        },
        *final(flags) == if cmd is Scan {
            Flags { scan_pending: true, ..*old(flags) }
        } else {
            flags_after(cmd, *old(flags))
        },
{
    match cmd {
        NetCommand::WifiOn => Idle::Start(Mode::Station { target: None }),
        NetCommand::Scan => {
            flags.scan_pending = true;
            Idle::Start(Mode::Station { target: None })
        },
        NetCommand::Join { ssid, password } => Idle::Start(Mode::Station { target: Some((ssid, password)) }),
        NetCommand::Hotspot => Idle::Start(Mode::Hotspot),
        NetCommand::WifiOff => Idle::Stay(Common::Nothing),
        _ => Idle::Stay(common(cmd, flags, false)),
    }
}

/// The task: the session to run next, if one ended in favour of it.
pub struct NetTask {
    /// The next session.
    pub next: Option<Mode>,
}

impl NetTask {
    /// The session to run next, if there is one; it is taken.
    pub fn begin(&mut self) -> (r: Option<Mode>)
        ensures
            r == old(self).next,
            final(self).next is None,
    {
        self.next.take()
    }

    /// A session ended. Returns the state to publish, if any.
    pub fn ended(&mut self, outcome: Outcome) -> (r: Option<WifiState>)
        ensures
            (final(self).next, r) == next_session(old(self).next, outcome),
            match outcome {
                Outcome::Off => r == Some(WifiState::Off) && final(self).next == old(self).next,
                Outcome::Switch(m) => r is None && final(self).next == Some(m),
            },
    {
        match outcome {
            Outcome::Off => Some(WifiState::Off),
            Outcome::Switch(m) => {
                self.next = Some(m);
                None
            },
        }
    }
}

/// The number that a MAC address is, its first byte lowest.
pub open spec fn mac_number(mac: Seq<u8>) -> u64 {
    (mac[0] + mac[1] * 0x100 + mac[2] * 0x1_0000 + mac[3] * 0x100_0000 + mac[4] * 0x1_0000_0000 + mac[5]
        * 0x100_0000_0000) as u64
}

/// What a new hotspot password is made from, if one is needed: the device's seed mixed with its address.
pub fn password_seed(password: &str, seed: u64, mac: [u8; 6]) -> (r: Option<u64>)
    ensures
        r == if password@.len() == 0 {
            Some(seed ^ mac_number(mac@))
        } else {
            None
        },
{
    if password.is_empty() {
        let n: u64 = mac[0] as u64 + mac[1] as u64 * 0x100 + mac[2] as u64 * 0x1_0000 + mac[3] as u64 * 0x100_0000
            + mac[4] as u64 * 0x1_0000_0000 + mac[5] as u64 * 0x100_0000_0000;
        Some(seed ^ n)
    } else {
        None
    }
}

/// How the radio starts.
#[derive(Clone, Debug, PartialEq, Eq)]
pub enum Radio {
    /// As a station that is not joined yet.
    Idle,
    /// As an access point of this name and password.
    AccessPoint(String, String),
}

/// How the reader gets its address.
#[derive(Clone, Debug, PartialEq, Eq)]
pub enum Addressing {
    /// From the network, under this host name.
    Dhcp(String),
    /// It is its own gateway and name server, at this address.
    Fixed(String),
}

/// What a session serves beside the page.
#[derive(Clone, Copy, Debug, PartialEq, Eq, Structural)]
pub enum Servers {
    /// mDNS on its own address, addresses for its clients, and the captive portal.
    Hotspot,
    /// mDNS that follows the address, the fetch worker, Calibre, and one time sync.
    Station,
}

/// How a session is set up.
pub struct Setup {
    /// The radio.
    pub radio: Radio,
    /// The address.
    pub addressing: Addressing,
    /// What is served.
    pub servers: Servers,
    /// Whether the radio may doze while the servers come up.
    pub power_save: bool,
    /// What is published once the session is up, if anything yet.
    pub announce: Option<WifiState>,
}

/// How a session of this mode is set up. `host` is the device's name as it was set, `ssid`, `password` and `ip` are
/// the hotspot's.
pub fn session_setup(mode: &Mode, host: &str, ssid: &String, password: &String, ip: &String) -> (r: Setup)
    ensures
        is_setup(*mode, host@, *ssid, *password, *ip, r),
        !r.power_save,
        match *mode {
            Mode::Station { .. } => {
                &&& r.radio is Idle
                &&& r.addressing matches Addressing::Dhcp(h) && h@ == host_name(host@)
                &&& r.servers == Servers::Station
                &&& r.announce is None
            },
            Mode::Hotspot => {
                &&& r.radio == Radio::AccessPoint(*ssid, *password)
                &&& r.addressing == Addressing::Fixed(*ip)
                &&& r.servers == Servers::Hotspot
                &&& r.announce == Some(WifiState::Hotspot { ssid: *ssid, password: *password, ip: *ip })
            },
        },
{
    match mode {
        Mode::Station { .. } => Setup {
            radio: Radio::Idle,
            addressing: Addressing::Dhcp(clean_hostname(host)),
            servers: Servers::Station,
            power_save: false,
            announce: None,
        },
        Mode::Hotspot => Setup {
            radio: Radio::AccessPoint(ssid.clone(), password.clone()),
            addressing: Addressing::Fixed(ip.clone()),
            servers: Servers::Hotspot,
            power_save: false,
            announce: Some(WifiState::Hotspot { ssid: ssid.clone(), password: password.clone(), ip: ip.clone() }),
        },
    }
}

/// What a radio that does not start leads to: the state to publish, and the end of the session.
pub fn radio_failed() -> (r: (WifiState, Outcome))
    ensures
        r.0 matches WifiState::Failed(t) && t@ == "the radio"@,
        r.1 is Off,
{
    (WifiState::Failed(text::owned("the radio")), Outcome::Off)
}

/// How a session ends: as its command loop says, or off where its servers end first.
pub fn session_ended(commands: Option<Outcome>) -> (r: Outcome)
    ensures
        r == match commands {
            Some(o) => o,
            None => Outcome::Off,
        },
{
    match commands {
        Some(o) => o,
        None => Outcome::Off,
    }
}

/// Joining a network.
#[derive(Clone, Debug, PartialEq, Eq)]
pub struct Joining {
    /// Whether the user gave a password for it.
    pub explicit: bool,
    /// Name.
    pub ssid: String,
    /// Password.
    pub password: String,
}

/// The first step of joining: the network chosen of those in range, if there is one. `any_saved` says that a
/// network is saved at all. Returns the state to publish, and what to join.
pub fn chosen(
    target: &Option<(String, String)>,
    choice: Option<(String, String)>,
    any_saved: bool,
) -> (r: (WifiState, Option<Joining>))
    ensures
        is_choice(*target, choice, any_saved, r),
        match choice {
            None => {
                &&& r.1 is None
                &&& r.0 matches WifiState::Failed(t)
                &&& t@ == if any_saved {
                    "a saved network: none in range"@
                } else {
                    "anything: no saved network"@
                }
            },
            Some((ssid, password)) => {
                &&& r.0 == WifiState::Connecting(ssid)
                &&& r.1 == Some(
                    Joining {
                        explicit: *target matches Some(t) && t.1@.len() > 0,
                        ssid,
                        password,
                    },
                )
            },
        },
{
    let explicit = match target {
        Some(t) => !t.1.as_str().is_empty(),
        None => false,
    };
    match choice {
        None => {
            let why = if any_saved { "a saved network: none in range" } else { "anything: no saved network" };
            (WifiState::Failed(text::owned(why)), None)
        },
        Some((ssid, password)) => {
            let state = WifiState::Connecting(ssid.clone());
            (state, Some(Joining { explicit, ssid, password }))
        },
    }
}

/// What a try to join leads to.
#[derive(Clone, Debug, PartialEq, Eq)]
pub enum Joined {
    /// Remember the network and its password, publish the saved names, then this state.
    Remember(String, String, WifiState),
    /// Mark the network as not working, then publish this state.
    Mark(String, WifiState),
    /// Publish this state.
    Fail(WifiState),
}

impl Joining {
    /// The network was joined, with this state, or could not be. One the user gave a password for is not marked:
    /// the password may have been wrong.
    pub fn joined(self, state: Option<WifiState>, current: &mut Option<String>) -> (r: Joined)
        ensures
            r == self.outcome(state),
            *final(current) == self.current_after(state, *old(current)),
            match state {
                Some(s) => r == Joined::Remember(self.ssid, self.password, s) && *final(current) == Some(self.ssid),
                None => *final(current) == *old(current) && r == if self.explicit {
                    Joined::Fail(WifiState::Failed(self.ssid))
                } else {
                    Joined::Mark(self.ssid, WifiState::Failed(self.ssid))
                },
            },
    {
        match state {
            Some(s) => {
                *current = Some(self.ssid.clone());
                Joined::Remember(self.ssid, self.password, s)
            },
            None => {
                let failed = WifiState::Failed(self.ssid.clone());
                if self.explicit {
                    Joined::Fail(failed)
                } else {
                    Joined::Mark(self.ssid, failed)
                }
            },
        }
    }
}

/// A station session's command loop.
pub struct Station {
    /// The network joined.
    pub current: Option<String>,
    /// Whether the radio may doze.
    pub ps_on: bool,
    /// The signal published last.
    pub last_bars: u8,
    /// Seconds.
    pub tick: u32,
    /// How often a lost link was tried again.
    pub retries: u8,
}

/// What a command leads to in a station session.
#[derive(Debug, PartialEq, Eq)]
pub enum StationAsk {
    /// End the session.
    End(Outcome),
    /// Join this network, or the best saved one; first leave the one joined if so told.
    Join(bool, Option<(String, String)>),
    /// Look for networks.
    Scan,
    /// Forget this network and read the list again; where it is the one joined, leave it and end the session as
    /// told.
    Forget(String, Option<Outcome>),
    /// Do this, as every mode does.
    Common(Common),
    /// Nothing.
    Nothing,
}

/// Whether a network is the one joined.
pub open spec fn is_current(current: Option<String>, ssid: String) -> bool {
    current matches Some(c) && c@ == ssid@
}

/// What a command leads to in a station session.
pub open spec fn station_ask(current: Option<String>, cmd: NetCommand) -> StationAsk {
    match cmd {
        NetCommand::Hotspot => StationAsk::End(Outcome::Switch(Mode::Hotspot)),
        NetCommand::WifiOn => if current is None {
            StationAsk::Join(false, None)
        } else {
            StationAsk::Nothing
        },
        NetCommand::Scan => StationAsk::Scan,
        NetCommand::Join { ssid, password } => StationAsk::Join(current is Some, Some((ssid, password))),
        NetCommand::Forget(ssid) => StationAsk::Forget(
            ssid,
            if is_current(current, ssid) {
                Some(Outcome::Off)
            } else {
                None
            },
        ),
        NetCommand::WifiOff => StationAsk::End(Outcome::Off),
        _ => StationAsk::Common(common_of(cmd, true)),
    }
}

/// What a second of a station session leads to.
#[derive(Debug, PartialEq, Eq)]
pub enum Second {
    /// The radio idled out: end the session with it off.
    Off,
    /// Let the radio doze or not, if so told; nothing more.
    Quiet(Option<bool>),
    /// The same; then give the network up and publish that it failed.
    GiveUp(Option<bool>, WifiState),
    /// The same; then publish that it is being joined, and try again.
    Rejoin(Option<bool>, String),
    /// The same; then see how strong the signal is.
    Signal(Option<bool>),
}

/// Whether a deadline lies ahead.
pub open spec fn is_ahead(until: u32, now: u32) -> bool {
    until.wrapping_sub(now) < 0x8000_0000 && until != now
}

/// Whether the radio idled out: the reader is on the page, and nothing happened for ten minutes.
pub open spec fn idled_out(flags: Flags, now: u32, activity: u32) -> bool {
    flags.reading && now.wrapping_sub(activity) > IDLE_OFF_MS
}

/// What the radio is told about dozing, if anything new: not while a transfer is under way.
pub open spec fn new_power_save(ps_on: bool, busy: bool) -> Option<bool> {
    if busy == ps_on {
        Some(!busy)
    } else {
        None
    }
}

impl Station {
    /// Whether a lost link was not tried too often.
    pub open spec fn wf(self) -> bool {
        self.retries <= MAX_RETRIES
    }

    /// What a second leads to, if the radio did not idle out.
    pub open spec fn second_ask(self, busy: bool, connected: bool) -> Second {
        let ps = new_power_save(self.ps_on, busy);
        match self.current {
            None => Second::Quiet(ps),
            Some(ssid) => if !connected {
                if self.retries == MAX_RETRIES {
                    Second::GiveUp(ps, WifiState::Failed(ssid))
                } else {
                    Second::Rejoin(ps, ssid)
                }
            } else if self.tick.wrapping_add(1) % 10 == 0 {
                Second::Signal(ps)
            } else {
                Second::Quiet(ps)
            },
        }
    }

    /// A session begins: the radio may doze; a scan that was asked for comes before joining. Returns whether to
    /// scan.
    pub fn begin(flags: &mut Flags) -> (r: (Station, bool))
        ensures
            r.0.wf(),
            r.0 == (Station { current: None, ps_on: true, last_bars: 0, tick: 0, retries: 0 }),
            r.1 == old(flags).scan_pending,
            *final(flags) == (Flags { scan_pending: false, ..*old(flags) }),
    {
        let scan = flags.scan_pending;
        flags.scan_pending = false;
        (Station { current: None, ps_on: true, last_bars: 0, tick: 0, retries: 0 }, scan)
    }

    /// Handle a command.
    pub fn command(&mut self, cmd: NetCommand, flags: &mut Flags) -> (r: StationAsk)
        ensures
            r == station_ask(old(self).current, cmd),
            *final(flags) == flags_after(cmd, *old(flags)),
            *final(self) == if cmd is Join {
                Station { current: None, ..*old(self) }
            } else {
                *old(self)
            },
    {
        match cmd {
            NetCommand::Hotspot => StationAsk::End(Outcome::Switch(Mode::Hotspot)),
            NetCommand::WifiOn => {
                if self.current.is_none() {
                    StationAsk::Join(false, None)
                } else {
                    StationAsk::Nothing
                }
            },
            NetCommand::Scan => StationAsk::Scan,
            NetCommand::Join { ssid, password } => {
                let leave = self.current.is_some();
                self.current = None;
                StationAsk::Join(leave, Some((ssid, password)))
            },
            NetCommand::Forget(ssid) => {
                let leaving = match &self.current {
                    Some(c) => same(c, &ssid),
                    None => false,
                };
                StationAsk::Forget(ssid, if leaving { Some(Outcome::Off) } else { None })
            },
            NetCommand::WifiOff => StationAsk::End(Outcome::Off),
            _ => StationAsk::Common(common(cmd, flags, true)),
        }
    }

    /// A second passed. `activity` is when something last happened, `busy_until` when the transfer under way is
    /// expected to end, `connected` says that the link is up.
    pub fn second(&mut self, flags: &Flags, now: u32, activity: u32, busy_until: u32, connected: bool) -> (r: Second)
        requires
            old(self).wf(),
        ensures
            *final(self) == old(self).after_second(r),
            r == old(self).second_says(*flags, now, activity, busy_until, connected),
            final(self).wf(),
            final(self).tick == old(self).tick.wrapping_add(1),
            final(self).last_bars == old(self).last_bars,
            if idled_out(*flags, now, activity) {
                &&& r is Off
                &&& final(self).current == old(self).current
                &&& final(self).ps_on == old(self).ps_on
                &&& final(self).retries == old(self).retries
            } else {
                let busy = is_ahead(busy_until, now);
                &&& r == old(self).second_ask(busy, connected)
                &&& final(self).ps_on == !busy
                &&& final(self).current == if r is GiveUp {
                    None
                } else {
                    old(self).current
                }
                &&& final(self).retries == if r is GiveUp {
                    0
                } else if r is Rejoin {
                    old(self).retries + 1
                } else {
                    old(self).retries as int
                }
            },
    {
        self.tick = self.tick.wrapping_add(1);
        if flags.reading && now.wrapping_sub(activity) > IDLE_OFF_MS {
            return Second::Off;
        }
        let busy = busy_until.wrapping_sub(now) < 0x8000_0000 && busy_until != now;
        let mut ps: Option<bool> = None;
        if busy == self.ps_on {
            self.ps_on = !busy;
            ps = Some(!busy);
        }
        let ssid = match &self.current {
            Some(s) => s.clone(),
            None => {
                return Second::Quiet(ps);
            },
        };
        if !connected {
            if self.retries == MAX_RETRIES {
                self.current = None;
                self.retries = 0;
                Second::GiveUp(ps, WifiState::Failed(ssid))
            } else {
                self.retries = self.retries + 1;
                Second::Rejoin(ps, ssid)
            }
        } else if self.tick % 10 == 0 {
            Second::Signal(ps)
        } else {
            Second::Quiet(ps)
        }
    }

    /// The link was joined again, with this state, or was not. Returns the state to publish.
    pub fn rejoined(&mut self, state: Option<WifiState>) -> (r: Option<WifiState>)
        requires
            old(self).wf(),
        ensures
            final(self).wf(),
            r == state,
            *final(self) == if state is Some {
                Station { retries: 0, ..*old(self) }
            } else {
                *old(self)
            },
    {
        if state.is_some() {
            self.retries = 0;
        }
        state
    }

    /// The signal is this strong. Returns the state to publish, where that is new; `ip` and `host` are where the
    /// reader is found.
    pub fn signal(&mut self, bars: u8, ip: &str, host: &str) -> (r: Option<WifiState>)
        ensures
            r is Some == old(self).signal_changed(bars),
            *final(self) == (Station {
                last_bars: if old(self).current is Some {
                    bars
                } else {
                    old(self).last_bars
                },
                ..*old(self)
            }),
            match old(self).current {
                Some(c) => if bars != old(self).last_bars {
                    r matches Some(WifiState::Connected { ssid, ip: i, host: h, signal }) && ssid == c && i@ == ip@ && h@
                        == host@ && signal == bars
                } else {
                    r is None
                },
                None => r is None,
            },
    {
        match &self.current {
            Some(c) => {
                if bars != self.last_bars {
                    let ssid = c.clone();
                    self.last_bars = bars;
                    Some(WifiState::Connected { ssid, ip: text::owned(ip), host: text::owned(host), signal: bars })
                } else {
                    None
                }
            },
            None => None,
        }
    }
}

/// What a command leads to in a hotspot session.
#[derive(Debug, PartialEq, Eq)]
pub enum HotspotAsk {
    /// End the session.
    End(Outcome),
    /// Publish a scan that found nothing: the access point cannot scan, the UI keeps its saved list.
    NoScan,
    /// Do this, as every mode does, and read the list of networks again if so told.
    Common(Common, bool),
    /// Nothing.
    Nothing,
}

/// Handle a command in a hotspot session.
pub fn hotspot_command(cmd: NetCommand, flags: &mut Flags) -> (r: HotspotAsk)
    ensures
        r == hotspot_ask(cmd),
        r == match cmd {
            NetCommand::WifiOn => HotspotAsk::End(Outcome::Switch(Mode::Station { target: None })),
            NetCommand::Join { ssid, password } => HotspotAsk::End(
                Outcome::Switch(Mode::Station { target: Some((ssid, password)) }),
            ),
            NetCommand::Hotspot => HotspotAsk::Nothing,
            NetCommand::Scan => HotspotAsk::NoScan,
            NetCommand::WifiOff => HotspotAsk::End(Outcome::Off),
            _ => HotspotAsk::Common(common_of(cmd, false), cmd is Forget),
        },
        *final(flags) == flags_after(cmd, *old(flags)),
{
    match cmd {
        NetCommand::WifiOn => HotspotAsk::End(Outcome::Switch(Mode::Station { target: None })),
        NetCommand::Join { ssid, password } => HotspotAsk::End(
            Outcome::Switch(Mode::Station { target: Some((ssid, password)) }),
        ),
        NetCommand::Hotspot => HotspotAsk::Nothing,
        NetCommand::Scan => HotspotAsk::NoScan,
        NetCommand::WifiOff => HotspotAsk::End(Outcome::Off),
        _ => {
            let forget = matches!(cmd, NetCommand::Forget(_));
            HotspotAsk::Common(common(cmd, flags, false), forget)
        },
    }
}

/// Whether a second of a hotspot session ends it: the radio idled out.
pub fn hotspot_second(flags: &Flags, now: u32, activity: u32) -> (r: bool)
    ensures
        r == idled_out(*flags, now, activity),
{
    flags.reading && now.wrapping_sub(activity) > IDLE_OFF_MS
}

/// A link that stays down and cannot be joined again is given up: at the fourth second on, after three tries.
pub proof fn law_lost_link_is_given_up(s: Station, ssid: String, busy: bool)
    requires
        s.wf(),
        s.retries == 0,
        s.current == Some(ssid),
    ensures
        ({
            let again = |n: int| Station { retries: n as u8, ..s };
            &&& forall|n: int|
                0 <= n < MAX_RETRIES ==> (#[trigger] again(n)).second_ask(busy, false) == Second::Rejoin(
                    new_power_save(s.ps_on, busy),
                    ssid,
                )
            &&& again(MAX_RETRIES as int).second_ask(busy, false) == Second::GiveUp(
                new_power_save(s.ps_on, busy),
                WifiState::Failed(ssid),
            )
        }),
{
}

/// The radio stays on while something else than the page is on the screen.
pub proof fn law_radio_stays_on_off_the_page(flags: Flags, now: u32, activity: u32)
    requires
        !flags.reading,
    ensures
        !idled_out(flags, now, activity),
{
}

/// The radio is let doze exactly while no transfer is under way: told once, it is not told again.
pub proof fn law_dozing_is_told_once(ps_on: bool, busy: bool)
    ensures
        new_power_save(ps_on, busy) matches Some(b) ==> b == !busy && b != ps_on,
        new_power_save(!busy, busy) is None,
{
}

/// Turning Wi-Fi off ends a session of either kind, whatever is joined; so does forgetting the network joined, and the radio is off then.
pub proof fn law_wifi_off_ends_a_session(current: Option<String>, ssid: String)
    ensures
        station_ask(current, NetCommand::WifiOff) == StationAsk::End(Outcome::Off),
        common_of(NetCommand::WifiOff, false) == Common::Off,
        station_ask(Some(ssid), NetCommand::Forget(ssid)) == StationAsk::Forget(ssid, Some(Outcome::Off)),
{
}

/// What the access point makes of a command.
pub open spec fn hotspot_ask(cmd: NetCommand) -> HotspotAsk {
    match cmd {
        NetCommand::WifiOn => HotspotAsk::End(Outcome::Switch(Mode::Station { target: None })),
        NetCommand::Join { ssid, password } => HotspotAsk::End(
            Outcome::Switch(Mode::Station { target: Some((ssid, password)) }),
        ),
        NetCommand::Hotspot => HotspotAsk::Nothing,
        NetCommand::Scan => HotspotAsk::NoScan,
        NetCommand::WifiOff => HotspotAsk::End(Outcome::Off),
        _ => HotspotAsk::Common(common_of(cmd, false), cmd is Forget),
    }
}

/// Whether this is what is told and tried for a network that was chosen, or for none.
pub open spec fn is_choice(
    target: Option<(String, String)>,
    choice: Option<(String, String)>,
    any_saved: bool,
    r: (WifiState, Option<Joining>),
) -> bool {
    match choice {
        None => r.1 is None && (r.0 matches WifiState::Failed(t) && t@ == if any_saved {
            "a saved network: none in range"@
        } else {
            "anything: no saved network"@
        }),
        Some((ssid, password)) => r.0 == WifiState::Connecting(ssid) && r.1 == Some(
            Joining { explicit: target matches Some(t) && t.1@.len() > 0, ssid, password },
        ),
    }
}

/// Whether this is how a session is set up.
pub open spec fn is_setup(mode: Mode, host: Seq<char>, ssid: String, password: String, ip: String, r: Setup) -> bool {
    &&& !r.power_save
    &&& match mode {
        Mode::Station { .. } => {
            &&& r.radio is Idle
            &&& r.addressing matches Addressing::Dhcp(h)
            &&& h@ == host_name(host)
            &&& r.servers == Servers::Station
            &&& r.announce is None
        },
        Mode::Hotspot => {
            &&& r.radio == Radio::AccessPoint(ssid, password)
            &&& r.addressing == Addressing::Fixed(ip)
            &&& r.servers == Servers::Hotspot
            &&& r.announce == Some(WifiState::Hotspot { ssid, password, ip })
        },
    }
}

impl Joining {
    /// What comes of trying to join: `state` is what was joined, if it was.
    pub open spec fn outcome(self, state: Option<WifiState>) -> Joined {
        match state {
            Some(s) => Joined::Remember(self.ssid, self.password, s),
            None => if self.explicit {
                Joined::Fail(WifiState::Failed(self.ssid))
            } else {
                Joined::Mark(self.ssid, WifiState::Failed(self.ssid))
            },
        }
    }

    /// The network that is current then.
    pub open spec fn current_after(self, state: Option<WifiState>, before: Option<String>) -> Option<String> {
        match state {
            Some(_) => Some(self.ssid),
            None => before,
        }
    }
}

impl Station {
    /// What is asked each second.
    pub open spec fn second_says(self, flags: Flags, now: u32, activity: u32, busy_until: u32, connected: bool) -> Second {
        if idled_out(flags, now, activity) {
            Second::Off
        } else {
            self.second_ask(is_ahead(busy_until, now), connected)
        }
    }

    /// The station once a second has passed that ended in this.
    pub open spec fn after_second(self, said: Second) -> Station {
        let told = match said {
            Second::Off => None,
            Second::Quiet(ps) => ps,
            Second::GiveUp(ps, _) => ps,
            Second::Rejoin(ps, _) => ps,
            Second::Signal(ps) => ps,
        };
        Station {
            tick: self.tick.wrapping_add(1),
            ps_on: match told {
                Some(on) => on,
                None => self.ps_on,
            },
            current: if said is GiveUp { None } else { self.current },
            retries: if said is GiveUp {
                0
            } else if said is Rejoin {
                (self.retries + 1) as u8
            } else {
                self.retries
            },
            ..self
        }
    }
}

/// A network named in the request is tried with its password; it is kept once it was joined and is the current one
/// from then on; one that could not be joined changes nothing but what is told, with its name.
pub proof fn law_joined_networks_are_kept(
    target: Option<(String, String)>,
    ssid: String,
    password: String,
    any_saved: bool,
    r: (WifiState, Option<Joining>),
    state: WifiState,
    before: Option<String>,
)
    requires
        is_choice(target, Some((ssid, password)), any_saved, r),
    ensures
        r.0 == WifiState::Connecting(ssid),
        r.1 matches Some(j) && j.outcome(Some(state)) == Joined::Remember(ssid, password, state) && j.current_after(
            Some(state),
            before,
        ) == Some(ssid) && j.current_after(None, before) == before && (j.outcome(None) == Joined::Fail(
            WifiState::Failed(ssid),
        ) || j.outcome(None) == Joined::Mark(ssid, WifiState::Failed(ssid))),
        target is None ==> r.1->0.outcome(None) is Mark,
        target matches Some(t) ==> (t.1@.len() > 0 <==> r.1->0.outcome(None) is Fail),
{
}

/// With no network to try nothing is tried, and it is told whether any is known.
pub proof fn law_nothing_to_join_is_told(
    target: Option<(String, String)>,
    any_saved: bool,
    r: (WifiState, Option<Joining>),
)
    requires
        is_choice(target, None, any_saved, r),
    ensures
        r.1 is None,
        r.0 matches WifiState::Failed(t) && (any_saved ==> t@ == "a saved network: none in range"@) && (!any_saved ==> t@
            == "anything: no saved network"@),
{
}

/// What a command makes of a session: the access point gives way to a network that is to be joined, a station to the
/// access point; a network is joined as it was named, and what one mode cannot do it says or leaves alone.
pub proof fn law_commands_switch_the_session(ssid: String, password: String, current: Option<String>)
    ensures
        hotspot_ask(NetCommand::Join { ssid, password }) == HotspotAsk::End(
            Outcome::Switch(Mode::Station { target: Some((ssid, password)) }),
        ),
        hotspot_ask(NetCommand::WifiOn) == HotspotAsk::End(Outcome::Switch(Mode::Station { target: None })),
        hotspot_ask(NetCommand::WifiOff) == HotspotAsk::End(Outcome::Off),
        hotspot_ask(NetCommand::Hotspot) == HotspotAsk::Nothing,
        hotspot_ask(NetCommand::Scan) == HotspotAsk::NoScan,
        hotspot_ask(NetCommand::Forget(ssid)) == HotspotAsk::Common(Common::Forget(ssid), true),
        station_ask(current, NetCommand::Hotspot) == StationAsk::End(Outcome::Switch(Mode::Hotspot)),
        station_ask(current, NetCommand::Join { ssid, password }) == StationAsk::Join(
            current is Some,
            Some((ssid, password)),
        ),
        station_ask(current, NetCommand::Scan) == StationAsk::Scan,
        current is None ==> station_ask(current, NetCommand::WifiOn) == StationAsk::Join(false, None),
        current is Some ==> station_ask(current, NetCommand::WifiOn) == StationAsk::Nothing,
        (current matches Some(c) ==> c@ != ssid@) ==> station_ask(current, NetCommand::Forget(ssid)) == StationAsk::Forget(
            ssid,
            None,
        ),
{
}

/// What is to be done online is queued, in a session of either kind, with whether it can be done now; nothing else is.
pub proof fn law_online_work_is_queued(cmd: NetCommand, current: Option<String>)
    ensures
        cmd is Fetch || cmd is Ota || cmd is Calibre || cmd is SyncNow ==> station_ask(current, cmd) == StationAsk::Common(
            Common::Enqueue(cmd, true),
        ) && hotspot_ask(cmd) == HotspotAsk::Common(Common::Enqueue(cmd, false), false),
        cmd matches NetCommand::Typing(on) ==> station_ask(current, cmd) == StationAsk::Common(Common::Typing(on)),
        cmd matches NetCommand::Reading(on) ==> forall|f: Flags| #[trigger]
            flags_after(cmd, f) == (Flags { reading: on, ..f }),
        !(cmd is Reading) ==> forall|f: Flags| #[trigger] flags_after(cmd, f) == f,
{
}

/// A session of the access point opens it under its name and password at a fixed address and says so; one of a station
/// joins by the reader's host name, and says nothing until it has joined.
pub proof fn law_sessions_are_set_up(mode: Mode, host: Seq<char>, ssid: String, password: String, ip: String, r: Setup)
    requires
        is_setup(mode, host, ssid, password, ip, r),
    ensures
        mode is Hotspot <==> r.radio is AccessPoint,
        mode is Hotspot <==> r.announce is Some,
        mode is Hotspot <==> r.servers is Hotspot,
        mode is Hotspot ==> r.radio == Radio::AccessPoint(ssid, password) && r.addressing == Addressing::Fixed(ip),
        mode is Station ==> (r.addressing matches Addressing::Dhcp(h) && h@ == host_name(host)),
        !r.power_save,
{
}

/// The radio goes off after ten minutes without use while a book is read, and not before.
pub proof fn law_idle_radio_goes_off(s: Station, activity: u32, idle: u32, busy_until: u32, connected: bool)
    ensures
        ({
            let now = activity.wrapping_add(idle);
            let reading = Flags { reading: true, scan_pending: false };
            s.second_says(reading, now, activity, busy_until, connected) is Off <==> idle > 600_000
        }),
{
}

/// While the link is up, how strong it is is looked at every tenth second and nothing is joined anew; after a second
/// the radio dozes exactly where no transfer is under way.
pub proof fn law_link_that_is_up_is_left_alone(s: Station, busy: bool, ssid: String)
    requires
        s.wf(),
        s.current == Some(ssid),
    ensures
        ({
            let said = s.second_ask(busy, true);
            &&& said is Signal <==> s.tick.wrapping_add(1) % 10 == 0
            &&& said is Signal || said is Quiet
            &&& s.after_second(said).current == Some(ssid) && s.after_second(said).retries == s.retries
            &&& s.after_second(said).ps_on == !busy
            &&& s.after_second(said).tick == s.tick.wrapping_add(1)
        }),
{
}

/// A link that is lost is tried three times, once a second, and then given up: no network is current any more, and the
/// next one has its three tries again.
pub proof fn law_lost_link_has_three_tries(s: Station, ssid: String)
    requires
        s.retries == 0,
        s.current == Some(ssid),
    ensures
        ({
            let one = s.after_second(s.second_ask(false, false));
            let two = one.after_second(one.second_ask(false, false));
            let three = two.after_second(two.second_ask(false, false));
            let last = three.second_ask(false, false);
            &&& s.second_ask(false, false) is Rejoin && one.second_ask(false, false) is Rejoin && two.second_ask(
                false,
                false,
            ) is Rejoin
            &&& last matches Second::GiveUp(_, w) && w == WifiState::Failed(ssid)
            &&& three.current == Some(ssid)
            &&& three.after_second(last).current is None && three.after_second(last).retries == 0
        }),
{
}

/// A time that lies ahead is ahead by less than half the clock's round, across its overflow too.
pub proof fn law_ahead_is_within_half_a_round(now: u32, d: u32)
    requires
        d < 0x8000_0000,
    ensures
        is_ahead(now.wrapping_add(d), now) == (d > 0),
        d > 0 ==> !is_ahead(now, now.wrapping_add(d)),
{
}

/// The number made of an address holds each of its bytes.
pub proof fn law_address_bytes_are_kept(mac: Seq<u8>)
    requires
        mac.len() == 6,
    ensures
        mac_number(mac) % 0x100 == mac[0],
        mac_number(mac) / 0x100 % 0x100 == mac[1],
        mac_number(mac) / 0x1_0000 % 0x100 == mac[2],
        mac_number(mac) / 0x100_0000 % 0x100 == mac[3],
        mac_number(mac) / 0x1_0000_0000 % 0x100 == mac[4],
        mac_number(mac) / 0x100_0000_0000 == mac[5],
{
    let n = mac[0] + mac[1] * 0x100 + mac[2] * 0x1_0000 + mac[3] * 0x100_0000 + mac[4] * 0x1_0000_0000 + mac[5]
        * 0x100_0000_0000;
    assert(n <= u64::MAX);
    assert(mac_number(mac) == n);
    assert(n % 0x100 == mac[0]);
    assert(n / 0x100 == mac[1] + mac[2] * 0x100 + mac[3] * 0x1_0000 + mac[4] * 0x100_0000 + mac[5] * 0x1_0000_0000);
    assert(n / 0x1_0000 == mac[2] + mac[3] * 0x100 + mac[4] * 0x1_0000 + mac[5] * 0x100_0000);
    assert(n / 0x100_0000 == mac[3] + mac[4] * 0x100 + mac[5] * 0x1_0000);
    assert(n / 0x1_0000_0000 == mac[4] + mac[5] * 0x100);
    assert(n / 0x100_0000_0000 == mac[5]);
}

/// A name that is clean already, small letters, digits and hyphens, is kept as it is; one with nothing to keep becomes
/// "quire".
pub proof fn law_clean_host_names_are_kept(s: Seq<char>)
    requires
        s.len() <= 31,
        forall|i: int|
            0 <= i < s.len() ==> ('a' <= #[trigger] s[i] && s[i] <= 'z') || ('0' <= s[i] && s[i] <= '9') || s[i] == '-',
    ensures
        s.len() > 0 ==> host_name(s) == s,
        s.len() == 0 ==> host_name(s) == "quire"@,
{
    lemma_clean_chars(s, 31);
}

proof fn lemma_clean_chars(s: Seq<char>, max: nat)
    requires
        s.len() <= max,
        forall|i: int|
            0 <= i < s.len() ==> ('a' <= #[trigger] s[i] && s[i] <= 'z') || ('0' <= s[i] && s[i] <= '9') || s[i] == '-',
    ensures
        host_chars(s, max) == s,
    decreases s.len(),
{
    if s.len() > 0 {
        assert(host_char(s[0]));
        assert forall|i: int| 0 <= i < s.skip(1).len() implies ('a' <= #[trigger] s.skip(1)[i] && s.skip(1)[i] <= 'z') || (
        '0' <= s.skip(1)[i] && s.skip(1)[i] <= '9') || s.skip(1)[i] == '-' by {
            assert(s.skip(1)[i] == s[i + 1]);
        }
        lemma_clean_chars(s.skip(1), (max - 1) as nat);
        assert(seq![s[0]] + s.skip(1) =~= s);
    } else {
        assert(s =~= Seq::empty());
    }
}

/// What a command starts while the radio is off.
pub open spec fn idle_ask(cmd: NetCommand) -> Idle {
    match cmd {
        NetCommand::WifiOn | NetCommand::Scan => Idle::Start(Mode::Station { target: None }),
        NetCommand::Join { ssid, password } => Idle::Start(Mode::Station { target: Some((ssid, password)) }),
        NetCommand::Hotspot => Idle::Start(Mode::Hotspot),
        NetCommand::WifiOff => Idle::Stay(Common::Nothing),
        _ => Idle::Stay(common_of(cmd, false)),
    }
}

/// The session that comes next, and what is told.
pub open spec fn next_session(next: Option<Mode>, outcome: Outcome) -> (Option<Mode>, Option<WifiState>) {
    match outcome {
        Outcome::Off => (next, Some(WifiState::Off)),
        Outcome::Switch(m) => (Some(m), None),
    }
}

impl Station {
    /// Whether the strength of the link is worth telling.
    pub open spec fn signal_changed(self, bars: u8) -> bool {
        self.current is Some && bars != self.last_bars
    }
}

/// With the radio off, turning Wi-Fi on, looking for networks or joining one starts a station, and only the access
/// point's own command starts that; everything else leaves the radio off, and what is to be done online waits.
pub proof fn law_radio_starts_on_demand(cmd: NetCommand)
    ensures
        idle_ask(cmd) is Start <==> cmd is WifiOn || cmd is Scan || cmd is Join || cmd is Hotspot,
        idle_ask(cmd) == Idle::Start(Mode::Hotspot) <==> cmd is Hotspot,
        cmd matches NetCommand::Join { ssid, password } ==> idle_ask(cmd) == Idle::Start(
            Mode::Station { target: Some((ssid, password)) },
        ),
        cmd is WifiOn ==> idle_ask(cmd) == Idle::Start(Mode::Station { target: None }),
        cmd is Fetch || cmd is Ota || cmd is Calibre || cmd is SyncNow ==> idle_ask(cmd) == Idle::Stay(Common::Enqueue(cmd, false)),
        cmd matches NetCommand::Forget(ssid) ==> idle_ask(cmd) == Idle::Stay(Common::Forget(ssid)),
        cmd is WifiOff ==> idle_ask(cmd) == Idle::Stay(Common::Nothing),
{
}

/// A session that switches is followed by the other mode without a word; one that ends is told to be off.
pub proof fn law_sessions_follow_each_other(next: Option<Mode>, m: Mode)
    ensures
        next_session(next, Outcome::Switch(m)) == (Some(m), None::<WifiState>),
        next_session(next, Outcome::Off) == (next, Some(WifiState::Off)),
{
}

/// The strength of a link is told when it changed, and not again while it stays.
pub proof fn law_signal_is_told_when_it_changes(s: Station, bars: u8)
    ensures
        s.current is Some && bars != s.last_bars ==> s.signal_changed(bars),
        !(Station { last_bars: bars, ..s }).signal_changed(bars),
        s.current is None ==> !s.signal_changed(bars),
{
}

} // verus!
