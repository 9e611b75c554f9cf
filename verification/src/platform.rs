//! What the platform and the interface say to each other.
use vstd::prelude::*;

use crate::index::BookId;
use crate::input::KeyEvent;

verus! {

/// Battery state.
#[derive(Clone, Copy, Debug, PartialEq, Eq, Structural)]
pub struct Battery {
    /// Percent 0–100.
    pub percent: u8,
    /// Whether charging.
    pub charging: bool,
    /// Estimated days left, if known.
    pub days_left: Option<u16>,
    /// Cycle count, if known.
    pub cycles: Option<u16>,
    /// Health percent, if known.
    pub health: Option<u8>,
    /// Voltage in mV.
    pub millivolts: u16,
}

impl Default for Battery {
    fn default() -> (r: Self)
        ensures
            r == (Battery {
                percent: 0,
                charging: false,
                days_left: None,
                cycles: None,
                health: None,
                millivolts: 0,
            }),
    {
        Battery { percent: 0, charging: false, days_left: None, cycles: None, health: None, millivolts: 0 }
    }
}

/// Wi-Fi state.
#[derive(Clone, Debug, PartialEq, Eq)]
pub enum WifiState {
    /// Radio off.
    Off,
    /// Trying to join.
    Connecting(String),
    /// Joined.
    Connected {
        /// Network name.
        ssid: String,
        /// IP address text.
        ip: String,
        /// mDNS host name (without .local).
        host: String,
        /// Signal 0–4.
        signal: u8,
    },
    /// Running the hotspot.
    Hotspot {
        /// Network name.
        ssid: String,
        /// Password.
        password: String,
        /// IP address text.
        ip: String,
    },
    /// Failed to join.
    Failed(String),
}

impl Default for WifiState {
    fn default() -> (r: Self)
        ensures
            r is Off,
    {
        WifiState::Off
    }
}

/// A visible network from a scan.
#[derive(Clone, Debug, PartialEq, Eq)]
pub struct WifiNetwork {
    /// Name.
    pub ssid: String,
    /// Signal 0–4.
    pub signal: u8,
    /// Whether a password is needed.
    pub secured: bool,
    /// Whether we have it saved.
    pub saved: bool,
}

/// Static facts about the device.
#[derive(Clone, Debug, PartialEq, Eq)]
pub struct DeviceInfo {
    /// Firmware version.
    pub version: String,
    /// Build date or commit.
    pub build: String,
    /// Panel controller name.
    pub panel: String,
    /// Free heap bytes.
    pub free_heap: u32,
    /// Largest free block.
    pub largest_block: u32,
    /// Flash size bytes.
    pub flash_bytes: u32,
    /// Card total bytes, if a card is present.
    pub card_total: Option<u64>,
    /// Card free bytes.
    pub card_free: Option<u64>,
    /// Serial or MAC text.
    pub serial: String,
}

impl Default for DeviceInfo {
    fn default() -> (r: Self)
        ensures
            r.version@.len() == 0,
            r.build@.len() == 0,
            r.panel@.len() == 0,
            r.free_heap == 0,
            r.largest_block == 0,
            r.flash_bytes == 0,
            r.card_total is None,
            r.card_free is None,
            r.serial@.len() == 0,
    {
        DeviceInfo {
            version: String::new(),
            build: String::new(),
            panel: String::new(),
            free_heap: 0,
            largest_block: 0,
            flash_bytes: 0,
            card_total: None,
            card_free: None,
            serial: String::new(),
        }
    }
}

/// Something for the network layer to fetch.
#[derive(Clone, Debug, PartialEq, Eq)]
pub enum FetchRequest {
    /// A book.
    Book {
        /// Address.
        url: String,
        /// Title.
        title: String,
        /// Author.
        author: String,
        /// Size in bytes, if known.
        size: Option<u64>,
    },
    /// Another job, by its name.
    Job(String),
}

/// Requests a screen makes of the platform.
#[derive(Clone, Debug, PartialEq, Eq)]
pub enum SysRequest {
    /// Enter sleep (the sleep screen is already drawn).
    Sleep,
    /// Power off.
    PowerOff,
    /// Restart.
    Restart,
    /// Full refresh of the current frame.
    RefreshFull,
    /// Turn Wi-Fi on (station).
    WifiOn,
    /// Turn Wi-Fi off.
    WifiOff,
    /// Start the hotspot.
    Hotspot,
    /// Join a network.
    WifiJoin {
        /// SSID.
        ssid: String,
        /// Password.
        password: String,
    },
    /// Forget a saved network.
    WifiForget(String),
    /// Scan for networks.
    WifiScan,
    /// Lock or unlock the keys.
    LockKeys(bool),
    /// Save a screenshot of the current frame.
    Screenshot,
    /// Set the clock (local seconds).
    SetTime(u32),
    /// Start an OTA update from a URL or the SD path.
    Ota(String),
    /// Begin ingest of pending books now.
    IngestNow,
    /// Rescan the card.
    Rescan,
    /// Set the panel orientation, in quarter turns.
    Orientation(u8),
    /// Start a timer for `ms` milliseconds (delivered as `Event::Timer`).
    Timer(u32),
    /// The reader wants a night-jobs hour set.
    NightJobs(Option<u8>),
    /// Start or stop the Calibre wireless server.
    Calibre(bool),
    /// Trigger a sync now.
    SyncNow,
    /// Ask the network layer to fetch something.
    Fetch(FetchRequest),
    /// Reboot into recovery.
    Recovery,
}

/// A value handed to the screen beneath when a picker or keyboard pops.
#[derive(Clone, Debug, PartialEq, Eq)]
pub enum Result_ {
    /// Text entered.
    Text(String),
    /// A choice index.
    Choice(usize),
    /// Cancelled.
    Cancel,
    /// A book chosen.
    Book(BookId),
}

/// A screen to open.
#[derive(Clone, Debug, PartialEq, Eq)]
pub enum ScreenAsk {
    /// The screen of this name, as it opens.
    Named(&'static str),
    /// The compact keyboard.
    T9 {
        /// Title.
        title: String,
        /// Text to start with.
        initial: String,
        /// Hint while empty.
        hint: String,
    },
}

/// What a screen wants after handling an event.
#[derive(Clone, Debug, PartialEq, Eq)]
pub enum Action {
    /// Nothing.
    Nothing,
    /// Redraw this screen.
    Redraw,
    /// Push a screen.
    Push(ScreenAsk),
    /// Pop this screen.
    Pop,
    /// Pop this screen and push another.
    Replace(ScreenAsk),
    /// Pop everything down to the reading page (or the empty home).
    ToReader,
    /// Pop to the first screen with this name.
    PopTo(&'static str),
    /// Open a book (replaces the reader) and go to it.
    Open(BookId),
    /// Ask the platform for something, then redraw.
    System(SysRequest),
    /// Pop, then deliver a result to the screen beneath.
    PopWith(Result_),
}

/// What the network layer reports of its jobs.
#[derive(Clone, Debug, PartialEq, Eq)]
pub enum NetEvent {
    /// The list of downloads changed.
    Downloads,
    /// An update is being fetched or installed.
    OtaProgress {
        /// How far it is.
        done: u64,
        /// Of how much.
        total: u64,
        /// How it ended, once it has.
        finished: Option<Result<(), String>>,
    },
    /// Another job, by its name.
    Job(String),
}

/// Everything that arrives from the platform.
#[derive(Clone, Debug, PartialEq, Eq)]
pub enum Event {
    /// A key.
    Key(KeyEvent),
    /// A timer requested with `SysRequest::Timer` fired.
    Timer,
    /// Periodic tick (about once a second while awake).
    Tick,
    /// Woke from sleep.
    Wake,
    /// Ingest progress for a book.
    Ingest {
        /// Book.
        id: BookId,
        /// Done units.
        done: u32,
        /// Total units.
        total: u32,
        /// Finished (Ok or the error text).
        finished: Option<Result<(), String>>,
    },
    /// Wi-Fi state changed.
    Wifi(WifiState),
    /// A scan finished.
    WifiScan(Vec<WifiNetwork>),
    /// A network job progressed.
    Net(NetEvent),
    /// Battery changed.
    Battery(Battery),
    /// Text typed on the phone (Drop page).
    PhoneText(String),
    /// A key sent from the phone.
    PhoneKey(KeyEvent),
    /// New books arrived (a scan is due).
    BooksChanged,
}

} // verus!
