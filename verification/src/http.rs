//! The Drop page server: what every request is answered, and what its handlers do to the card.
//!
//! The platform reads requests, moves bytes and writes answers; what is asked of it, and what is answered, is
//! decided here.
use vstd::prelude::*;
use vstd::utf8::{decode_utf8, valid_utf8};

use crate::card;
use crate::card::FsError;
use crate::platform::{FetchRequest, WifiState};
use crate::routes;
use crate::routes::{Route, RouteView};
use crate::text;
use crate::text::same;

verus! {

/// Largest JSON request body (settings, rename).
pub const MAX_JSON_BODY: usize = 8192;

/// Largest sleep image body (a 528 × 792 P4 PBM is 52 KB).
pub const MAX_SLEEP_BODY: usize = 65536;

/// How much of a card file is sent at a time.
pub const PIECE: usize = 4096;

/// The status of an answer.
#[derive(Clone, Copy, Debug, PartialEq, Eq, Structural)]
pub enum Status {
    /// It went well.
    Okay,
    /// It was made.
    Created,
    /// It went well, with nothing to say.
    NoContent,
    /// It is elsewhere for now.
    Found,
    /// See elsewhere.
    SeeOther,
    /// The request makes no sense.
    BadRequest,
    /// It needs the PIN.
    Forbidden,
    /// It is not there.
    NotFound,
    /// Not with this method.
    MethodNotAllowed,
    /// It does not go with what is there.
    Conflict,
    /// The body is too large.
    PayloadTooLarge,
    /// Something went wrong.
    ServerError,
    /// Not now.
    Unavailable,
    /// The card is full.
    InsufficientStorage,
}

impl Status {
    /// The number of a status.
    pub open spec fn number(self) -> u16 {
        match self {
            Status::Okay => 200,
            Status::Created => 201,
            Status::NoContent => 204,
            Status::Found => 302,
            Status::SeeOther => 303,
            Status::BadRequest => 400,
            Status::Forbidden => 403,
            Status::NotFound => 404,
            Status::MethodNotAllowed => 405,
            Status::Conflict => 409,
            Status::PayloadTooLarge => 413,
            Status::ServerError => 500,
            Status::Unavailable => 503,
            Status::InsufficientStorage => 507,
        }
    }

    /// The number of a status.
    pub fn code(&self) -> (r: u16)
        ensures
            r == self.number(),
    {
        match self {
            Status::Okay => 200,
            Status::Created => 201,
            Status::NoContent => 204,
            Status::Found => 302,
            Status::SeeOther => 303,
            Status::BadRequest => 400,
            Status::Forbidden => 403,
            Status::NotFound => 404,
            Status::MethodNotAllowed => 405,
            Status::Conflict => 409,
            Status::PayloadTooLarge => 413,
            Status::ServerError => 500,
            Status::Unavailable => 503,
            Status::InsufficientStorage => 507,
        }
    }
}

/// A part of the page that is stored packed.
#[derive(Clone, Copy, Debug, PartialEq, Eq, Structural)]
pub enum Asset {
    /// The page itself.
    Index,
    /// The manifest.
    Manifest,
    /// The service worker.
    ServiceWorker,
}

/// An answer the handlers build; written once at the end of the request. `T` is a text, `L` a list of texts.
#[derive(Clone, Debug, PartialEq, Eq)]
pub enum Resp<T, L> {
    /// `{"error": ..}`.
    Error(Status, T),
    /// `{"received": .., "done": ..}`.
    Received(Status, u64, bool),
    /// `{"path": ..}`.
    Path(Status, T),
    /// `{"added": [..]}`.
    Added(L),
    /// Plain text.
    Text(Status, &'static str),
    /// A page.
    Html(T),
    /// A packed part of the page.
    Gz(Asset),
    /// The icon.
    Svg,
    /// Somewhere else.
    Redirect(Status, T),
    /// A card file to download: its name, length and content type.
    File(T, u64, &'static str),
    /// Nothing.
    Empty(Status),
}

/// What an answer says.
pub type Said = Resp<Seq<char>, Seq<Seq<char>>>;

/// An answer.
pub type Answer = Resp<String, Vec<String>>;

impl View for Resp<String, Vec<String>> {
    type V = Resp<Seq<char>, Seq<Seq<char>>>;

    open spec fn view(&self) -> Resp<Seq<char>, Seq<Seq<char>>> {
        match *self {
            Resp::Error(s, t) => Resp::Error(s, t@),
            Resp::Received(s, n, d) => Resp::Received(s, n, d),
            Resp::Path(s, t) => Resp::Path(s, t@),
            Resp::Added(l) => Resp::Added(text::texts(l@)),
            Resp::Text(s, t) => Resp::Text(s, t),
            Resp::Html(t) => Resp::Html(t@),
            Resp::Gz(a) => Resp::Gz(a),
            Resp::Svg => Resp::Svg,
            Resp::Redirect(s, t) => Resp::Redirect(s, t@),
            Resp::File(t, n, c) => Resp::File(t@, n, c),
            Resp::Empty(s) => Resp::Empty(s),
        }
    }
}

/// An error answer.
pub fn error(status: Status, msg: &str) -> (r: Answer)
    ensures
        r@ == Said::Error(status, msg@),
{
    Resp::Error(status, text::owned(msg))
}

/// What a card error is answered.
pub open spec fn card_error(e: FsError) -> Said {
    match e {
        FsError::Full => Resp::Error(Status::InsufficientStorage, "card full"@),
        FsError::NotFound => Resp::Error(Status::NotFound, "not found"@),
        other => Resp::Error(Status::ServerError, other.name()),
    }
}

/// What a card error is answered.
pub fn fs_error(e: &FsError) -> (r: Answer)
    ensures
        r@ == card_error(*e),
{
    match e {
        FsError::Full => error(Status::InsufficientStorage, "card full"),
        FsError::NotFound => error(Status::NotFound, "not found"),
        other => error(Status::ServerError, &other.text()),
    }
}

/// A header of an answer.
#[derive(Clone, Debug, PartialEq, Eq)]
pub struct Header<T> {
    /// Name.
    pub name: &'static str,
    /// Value.
    pub value: T,
}

/// Headers as they are read.
pub open spec fn header_views(v: Seq<Header<String>>) -> Seq<Header<Seq<char>>> {
    v.map_values(|h: Header<String>| Header { name: h.name, value: h.value@ })
}

/// The header of this name and value.
pub open spec fn header(name: &'static str, value: Seq<char>) -> Header<Seq<char>> {
    Header { name, value }
}

impl<T, L> Resp<T, L> {
    /// Whether the answer is a JSON text.
    pub open spec fn is_json(self) -> bool {
        self is Error || self is Received || self is Path || self is Added
    }

    /// The status of an answer.
    pub open spec fn status_of(self) -> Status {
        match self {
            Resp::Error(s, _) => s,
            Resp::Received(s, _, _) => s,
            Resp::Path(s, _) => s,
            Resp::Text(s, _) => s,
            Resp::Redirect(s, _) => s,
            Resp::Empty(s) => s,
            _ => Status::Okay,
        }
    }
}

/// The headers of an answer: what it is, how it may be kept, and where it leads.
pub open spec fn headers_of(r: Said) -> Seq<Header<Seq<char>>> {
    if r.is_json() {
        seq![header("Content-Type", "application/json"@), header("Cache-Control", "no-store"@)]
    } else {
        match r {
            Resp::Html(_) => seq![
                header("Content-Type", "text/html; charset=utf-8"@),
                header("Cache-Control", "no-store"@),
            ],
            Resp::Gz(a) => seq![
                header(
                    "Content-Type",
                    match a {
                        Asset::Index => "text/html; charset=utf-8"@,
                        Asset::Manifest => "application/manifest+json"@,
                        Asset::ServiceWorker => "text/javascript"@,
                    },
                ),
                header("Content-Encoding", "gzip"@),
                header("Cache-Control", "no-cache"@),
            ],
            Resp::Svg => seq![
                header("Content-Type", "image/svg+xml"@),
                header("Cache-Control", "max-age=86400"@),
            ],
            Resp::Redirect(_, to) => seq![header("Location", to), header("Cache-Control", "no-store"@)],
            Resp::File(name, _, ct) => seq![
                header("Content-Type", ct@),
                header("Content-Disposition", "attachment; filename=\""@ + name + "\""@),
            ],
            _ => Seq::empty(),
        }
    }
}

fn one(name: &'static str, value: &str) -> (r: Header<String>)
    ensures
        r.name == name,
        r.value@ == value@,
{
    Header { name, value: text::owned(value) }
}

fn two(a: Header<String>, b: Header<String>) -> (r: Vec<Header<String>>)
    ensures
        header_views(r@) == seq![header(a.name, a.value@), header(b.name, b.value@)],
{
    let mut v: Vec<Header<String>> = Vec::new();
    v.push(a);
    v.push(b);
    assert(header_views(v@) =~= seq![header(a.name, a.value@), header(b.name, b.value@)]);
    v
}

impl Resp<String, Vec<String>> {
    /// The status of an answer.
    pub fn status(&self) -> (r: Status)
        ensures
            r == self@.status_of(),
    {
        match self {
            Resp::Error(s, _) => *s,
            Resp::Received(s, _, _) => *s,
            Resp::Path(s, _) => *s,
            Resp::Text(s, _) => *s,
            Resp::Redirect(s, _) => *s,
            Resp::Empty(s) => *s,
            _ => Status::Okay,
        }
    }

    /// The headers of an answer.
    pub fn headers(&self) -> (r: Vec<Header<String>>)
        ensures
            header_views(r@) == headers_of(self@),
    {
        match self {
            Resp::Error(_, _) | Resp::Received(_, _, _) | Resp::Path(_, _) | Resp::Added(_) => {
                two(one("Content-Type", "application/json"), one("Cache-Control", "no-store"))
            },
            Resp::Html(_) => two(one("Content-Type", "text/html; charset=utf-8"), one("Cache-Control", "no-store")),
            Resp::Gz(a) => {
                let ct = match a {
                    Asset::Index => "text/html; charset=utf-8",
                    Asset::Manifest => "application/manifest+json",
                    Asset::ServiceWorker => "text/javascript",
                };
                let mut v = two(one("Content-Type", ct), one("Content-Encoding", "gzip"));
                let ghost before = header_views(v@);
                v.push(one("Cache-Control", "no-cache"));
                assert(header_views(v@) =~= before.push(header("Cache-Control", "no-cache"@)));
                assert(header_views(v@) =~= headers_of(self@));
                v
            },
            Resp::Svg => two(one("Content-Type", "image/svg+xml"), one("Cache-Control", "max-age=86400")),
            Resp::Redirect(_, to) => two(one("Location", to), one("Cache-Control", "no-store")),
            Resp::File(name, _, ct) => two(
                one("Content-Type", ct),
                Header { name: "Content-Disposition", value: text::join3("attachment; filename=\"", name, "\"") },
            ),
            _ => {
                let v: Vec<Header<String>> = Vec::new();
                assert(header_views(v@) =~= Seq::<Header<Seq<char>>>::empty());
                v
            },
        }
    }
}

/// The content type of a card file, by its extension in lower case.
pub open spec fn content_type(ext: Seq<char>) -> &'static str {
    if ext == "epub"@ || ext == "kepub"@ {
        "application/epub+zip"
    } else if ext == "txt"@ || ext == "log"@ {
        "text/plain; charset=utf-8"
    } else if ext == "md"@ || ext == "markdown"@ {
        "text/markdown; charset=utf-8"
    } else if ext == "html"@ || ext == "htm"@ || ext == "xhtml"@ {
        "text/html; charset=utf-8"
    } else if ext == "fb2"@ || ext == "xml"@ || ext == "opf"@ {
        "application/xml"
    } else if ext == "cbz"@ || ext == "zip"@ {
        "application/zip"
    } else if ext == "pbm"@ {
        "image/x-portable-bitmap"
    } else if ext == "png"@ {
        "image/png"
    } else if ext == "jpg"@ || ext == "jpeg"@ {
        "image/jpeg"
    } else if ext == "json"@ {
        "application/json"
    } else {
        "application/octet-stream"
    }
}

/// The content type of a card file, by its extension in lower case.
pub fn content_type_for(ext: &str) -> (r: &'static str)
    ensures
        r == content_type(ext@),
{
    if same(ext, "epub") || same(ext, "kepub") {
        "application/epub+zip"
    } else if same(ext, "txt") || same(ext, "log") {
        "text/plain; charset=utf-8"
    } else if same(ext, "md") || same(ext, "markdown") {
        "text/markdown; charset=utf-8"
    } else if same(ext, "html") || same(ext, "htm") || same(ext, "xhtml") {
        "text/html; charset=utf-8"
    } else if same(ext, "fb2") || same(ext, "xml") || same(ext, "opf") {
        "application/xml"
    } else if same(ext, "cbz") || same(ext, "zip") {
        "application/zip"
    } else if same(ext, "pbm") {
        "image/x-portable-bitmap"
    } else if same(ext, "png") {
        "image/png"
    } else if same(ext, "jpg") || same(ext, "jpeg") {
        "image/jpeg"
    } else if same(ext, "json") {
        "application/json"
    } else {
        "application/octet-stream"
    }
}

/// A card file being sent, a piece at a time.
#[derive(Clone, Copy, Debug, PartialEq, Eq, Structural)]
pub struct FileSend {
    /// Its length.
    pub len: usize,
    /// How much was sent.
    pub off: usize,
}

impl FileSend {
    /// Whether no more was sent than there is.
    pub open spec fn wf(self) -> bool {
        self.off <= self.len
    }

    /// How much is read next.
    pub open spec fn next_piece(self) -> int {
        if self.len - self.off < PIECE {
            self.len - self.off
        } else {
            PIECE as int
        }
    }

    /// A file of this length.
    pub fn new(len: usize) -> (r: Self)
        ensures
            r.wf(),
            r == (FileSend { len, off: 0 }),
    {
        FileSend { len, off: 0 }
    }

    /// Where to read next, and how much; nothing once it was all sent.
    pub fn want(&self) -> (r: Option<(usize, usize)>)
        requires
            self.wf(),
        ensures
            r == self.wants(),
            r == if self.off < self.len {
                Some((self.off, self.next_piece() as usize))
            } else {
                None
            },
    {
        if self.off < self.len {
            let left: usize = self.len - self.off;
            Some((self.off, if left < PIECE { left } else { PIECE }))
        } else {
            None
        }
    }

    /// A read gave `n` bytes (none where it failed). Returns whether they are to be sent; where there are none
    /// the sending is over.
    pub fn read(&mut self, n: usize) -> (r: bool)
        requires
            old(self).wf(),
            n <= old(self).next_piece(),
        ensures
            *final(self) == old(self).after_read(n),
            final(self).wf(),
            r == (n > 0),
            final(self).len == if n > 0 {
                old(self).len
            } else {
                old(self).off
            },
            final(self).off == old(self).off + n,
    {
        if n == 0 {
            self.len = self.off;
            return false;
        }
        self.off = self.off + n;
        true
    }
}

/// A small body being read whole.
#[derive(Clone, Copy, Debug, PartialEq, Eq, Structural)]
pub struct SmallBody {
    /// Its length as announced.
    pub len: usize,
    /// How much came.
    pub got: usize,
}

impl SmallBody {
    /// A body of this length, if it is not too large.
    pub fn new(len: usize, max: usize) -> (r: Option<Self>)
        ensures
            r is Some == fits_in_memory(len, max),
            r == if len > max {
                None
            } else {
                Some(SmallBody { len, got: 0 })
            },
    {
        if len > max {
            None
        } else {
            Some(SmallBody { len, got: 0 })
        }
    }

    /// How many bytes are still wanted.
    pub fn want(&self) -> (r: usize)
        requires
            self.got <= self.len,
        ensures
            r == self.len - self.got,
    {
        self.len - self.got
    }

    /// So many bytes came; none means that the body ended, and what came is all of it.
    pub fn read(&mut self, n: usize)
        requires
            old(self).got + n <= old(self).len,
        ensures
            final(self).got == old(self).got + n,
            final(self).len == if n == 0 {
                old(self).got
            } else {
                old(self).len
            },
    {
        if n == 0 {
            self.len = self.got;
        } else {
            self.got = self.got + n;
        }
    }
}

/// Whether a request is let through: one that writes needs the PIN where one is set.
pub open spec fn let_through(route: RouteView, pin: Seq<char>, checked: bool) -> bool {
    !route.writes() || pin.len() == 0 || checked
}

/// Whether a request is let through: one that writes needs the PIN where one is set. `checked` says that the
/// PIN that came with the request is the one set.
pub fn admits(route: &Route, pin: &str, checked: bool) -> (r: bool)
    ensures
        r == (!route@.writes() || pin@.len() == 0 || checked),
        r == let_through(route@, pin@, checked),
{
    !route.is_write() || pin.is_empty() || checked
}

/// A request that only reads is let through whatever PIN is set.
pub proof fn law_reading_needs_no_pin(m: Seq<char>, path: Seq<char>, pin: Seq<char>, checked: bool)
    requires
        routes::reads(m),
    ensures
        !routes::routed(m, path).writes() || pin.len() == 0 || checked,
{
    routes::law_reading_never_writes(m, path);
}

/// A document the platform makes of what it holds.
#[derive(Clone, Copy, Debug, PartialEq, Eq, Structural)]
pub enum Document {
    /// The device's status.
    Status,
    /// The library.
    Library,
    /// The statistics.
    Stats,
    /// The settings.
    Settings,
}

/// A request whose body is read whole before it is handled.
#[derive(Clone, Debug, PartialEq, Eq)]
pub enum Small<T> {
    /// New settings.
    Settings,
    /// A new name for this file.
    Rename(T),
    /// Something to download.
    Fetch,
}

/// How a request is handled.
#[derive(Clone, Debug, PartialEq, Eq)]
pub enum Act<T, L> {
    /// Upgrade to a WebSocket.
    Upgrade,
    /// Answer at once.
    Reply(Resp<T, L>),
    /// Answer with a document.
    Document(Document),
    /// The captive landing page at this address.
    Captive(T),
    /// Read the body whole, then handle it.
    Body(Small<T>),
    /// Send this file.
    FileGet(T),
    /// Delete this file.
    FileDelete(T),
    /// Receive this file.
    FilePut(T),
    /// Receive a form with files.
    Upload,
    /// Receive a sleep image.
    Sleep,
    /// Send the frame on show.
    Screen,
}

/// What is done, with texts as sequences of characters.
pub type ActView = Act<Seq<char>, Seq<Seq<char>>>;

impl View for Act<String, Vec<String>> {
    type V = Act<Seq<char>, Seq<Seq<char>>>;

    open spec fn view(&self) -> Act<Seq<char>, Seq<Seq<char>>> {
        match *self {
            Act::Upgrade => Act::Upgrade,
            Act::Reply(r) => Act::Reply(r@),
            Act::Document(d) => Act::Document(d),
            Act::Captive(t) => Act::Captive(t@),
            Act::Body(s) => Act::Body(
                match s {
                    Small::Settings => Small::Settings,
                    Small::Rename(p) => Small::Rename(p@),
                    Small::Fetch => Small::Fetch,
                },
            ),
            Act::FileGet(p) => Act::FileGet(p@),
            Act::FileDelete(p) => Act::FileDelete(p@),
            Act::FilePut(p) => Act::FilePut(p@),
            Act::Upload => Act::Upload,
            Act::Sleep => Act::Sleep,
            Act::Screen => Act::Screen,
        }
    }
}

/// The address the reader is found at: the one it has, or that of its own access point.
pub open spec fn own_ip(wifi: WifiState, ap_ip: Seq<char>) -> Seq<char> {
    match wifi {
        WifiState::Hotspot { ip, .. } => ip@,
        WifiState::Connected { ip, .. } => ip@,
        _ => ap_ip,
    }
}

/// How a request is handled, by where it goes and whether it is let through.
pub open spec fn handled(route: RouteView, admitted: bool, wifi: WifiState, ap_ip: Seq<char>) -> ActView {
    if route is Ws {
        Act::Upgrade
    } else if !admitted {
        Act::Reply(Resp::Error(Status::Forbidden, "PIN required"@))
    } else {
        match route {
            RouteView::Index => Act::Reply(Resp::Gz(Asset::Index)),
            RouteView::Manifest => Act::Reply(Resp::Gz(Asset::Manifest)),
            RouteView::ServiceWorker => Act::Reply(Resp::Gz(Asset::ServiceWorker)),
            RouteView::Icon => Act::Reply(Resp::Svg),
            RouteView::Captive => Act::Captive(own_ip(wifi, ap_ip)),
            RouteView::CaptiveProbe => Act::Reply(Resp::Redirect(Status::Found, "http://"@ + ap_ip + "/captive"@)),
            RouteView::AppleProbe => Act::Reply(Resp::Html(routes::APPLE_SUCCESS@)),
            RouteView::Status => Act::Document(Document::Status),
            RouteView::Library => Act::Document(Document::Library),
            RouteView::Stats => Act::Document(Document::Stats),
            RouteView::SettingsGet => Act::Document(Document::Settings),
            RouteView::SettingsPut => Act::Body(Small::Settings),
            RouteView::FileGet(p) => Act::FileGet(p),
            RouteView::FileDelete(p) => Act::FileDelete(p),
            RouteView::FileRename(p) => Act::Body(Small::Rename(p)),
            RouteView::FilePut(p) => Act::FilePut(p),
            RouteView::Upload => Act::Upload,
            RouteView::Sleep => Act::Sleep,
            RouteView::Screen => Act::Screen,
            RouteView::Fetch => Act::Body(Small::Fetch),
            RouteView::Ws => Act::Upgrade,
            RouteView::NotFound => Act::Reply(Resp::Text(Status::NotFound, "Not found")),
            RouteView::MethodNotAllowed => Act::Reply(Resp::Text(Status::MethodNotAllowed, "Method not allowed")),
        }
    }
}

/// Decide how a request is handled. `admitted` is what [`admits`] says of it.
pub fn handle(route: Route, admitted: bool, wifi: &WifiState, ap_ip: &str) -> (r: Act<String, Vec<String>>)
    ensures
        r@ == handled(route@, admitted, *wifi, ap_ip@),
{
    if let Route::Ws = route {
        return Act::Upgrade;
    }
    if !admitted {
        return Act::Reply(error(Status::Forbidden, "PIN required"));
    }
    match route {
        Route::Index => Act::Reply(Resp::Gz(Asset::Index)),
        Route::Manifest => Act::Reply(Resp::Gz(Asset::Manifest)),
        Route::ServiceWorker => Act::Reply(Resp::Gz(Asset::ServiceWorker)),
        Route::Icon => Act::Reply(Resp::Svg),
        Route::Captive => {
            let ip = match wifi {
                WifiState::Hotspot { ip, .. } => ip.clone(),
                WifiState::Connected { ip, .. } => ip.clone(),
                _ => text::owned(ap_ip),
            };
            Act::Captive(ip)
        },
        Route::CaptiveProbe => Act::Reply(Resp::Redirect(Status::Found, text::join3("http://", ap_ip, "/captive"))),
        Route::AppleProbe => Act::Reply(Resp::Html(text::owned(routes::APPLE_SUCCESS))),
        Route::Status => Act::Document(Document::Status),
        Route::Library => Act::Document(Document::Library),
        Route::Stats => Act::Document(Document::Stats),
        Route::SettingsGet => Act::Document(Document::Settings),
        Route::SettingsPut => Act::Body(Small::Settings),
        Route::FileGet(p) => Act::FileGet(p),
        Route::FileDelete(p) => Act::FileDelete(p),
        Route::FileRename(p) => Act::Body(Small::Rename(p)),
        Route::FilePut(p) => Act::FilePut(p),
        Route::Upload => Act::Upload,
        Route::Sleep => Act::Sleep,
        Route::Screen => Act::Screen,
        Route::Fetch => Act::Body(Small::Fetch),
        Route::Ws => Act::Upgrade,
        Route::NotFound => Act::Reply(Resp::Text(Status::NotFound, "Not found")),
        Route::MethodNotAllowed => Act::Reply(Resp::Text(Status::MethodNotAllowed, "Method not allowed")),
    }
}

/// A request that writes and is not let through is answered 403, and nothing else is done.
pub proof fn law_refused_writes_do_nothing(route: RouteView, wifi: WifiState, ap_ip: Seq<char>)
    requires
        route.writes(),
    ensures
        handled(route, false, wifi, ap_ip) == ActView::Reply(Resp::Error(Status::Forbidden, "PIN required"@)),
{
}

/// What a body that is too large, or breaks off with an error, is answered.
pub fn body_refused(small: &Small<String>) -> (r: Answer)
    ensures
        r@ == Said::Error(
            Status::PayloadTooLarge,
            if *small is Settings {
                "settings body too large"@
            } else {
                "body too large"@
            },
        ),
{
    match small {
        Small::Settings => error(Status::PayloadTooLarge, "settings body too large"),
        _ => error(Status::PayloadTooLarge, "body too large"),
    }
}

/// What a request for a card file is answered, once opening it gave its length. `ext` is the file's extension
/// in lower case.
pub fn file_get(path: &str, ext: &str, opened: Result<u64, FsError>) -> (r: Answer)
    ensures
        r@ == match opened {
            Ok(len) => Said::File(card::leaf(path@), len, content_type(ext@)),
            Err(e) => card_error(e),
        },
{
    match opened {
        Ok(len) => Resp::File(card::file_name(path), len, content_type_for(ext)),
        Err(e) => fs_error(&e),
    }
}

/// What a request for the frame is answered where there is none: the main loop was too busy to be asked, or
/// did not show one in time.
pub fn no_screen(asked: bool) -> (r: Answer)
    ensures
        r@ == Said::Error(
            Status::Unavailable,
            if asked {
                "no frame"@
            } else {
                "busy"@
            },
        ),
{
    error(Status::Unavailable, if asked { "no frame" } else { "busy" })
}

/// The text under a key of a JSON object, as `serde_json` reads it; none where the text is not JSON, the value
/// is no object, or there is no text under the key.
pub uninterp spec fn json_text(text: Seq<char>, key: Seq<char>) -> Option<Seq<char>>;

/// `serde_json::from_str`, `Value::get` and `Value::as_str`: the text under a key of a JSON object; the result is
/// named [`json_text`].
#[verifier::external_body]
fn json_str(text: &str, key: &str) -> (r: Option<String>)
    ensures
        r is Some <==> json_text(text@, key@) is Some,
        r matches Some(t) ==> json_text(text@, key@) == Some(t@),
{
    let v = serde_json::from_str::<serde_json::Value>(text).ok()?;
    v.get(key).and_then(|t| t.as_str()).map(String::from)
}

/// The name a rename request asks for: the text under `to` in its body.
pub open spec fn asked_name(body: Seq<u8>) -> Option<Seq<char>> {
    if valid_utf8(body) {
        json_text(decode_utf8(body), "to"@)
    } else {
        None
    }
}

/// Where a file goes that is to be called `to`, if it may be called that: it stays in its folder, and gets
/// another name.
pub open spec fn renamed(path: Seq<char>, to: Seq<char>) -> Option<Seq<char>> {
    match routes::sanitized(card::folder(path) + "/"@ + to) {
        Some(p) => if to.contains('/') || p == path {
            None
        } else {
            Some(p)
        },
        None => None,
    }
}

/// Where a file is renamed to, or what is answered instead; `to` is the name asked for.
pub fn rename_target(path: &str, to: Option<String>) -> (r: Result<String, Answer>)
    ensures
        is_rename(path@, match to { Some(t) => Some(t@), None => None }, r),
        match to {
            None => r matches Err(a) && a@ == Said::Error(Status::BadRequest, "expected {\"to\": name}"@),
            Some(t) => match renamed(path@, t@) {
                Some(p) => r matches Ok(new) && new@ == p,
                None => r matches Err(a) && a@ == Said::Error(Status::BadRequest, "bad name"@),
            },
        },
{
    let to = match to {
        Some(t) => t,
        None => {
            return Err(error(Status::BadRequest, "expected {\"to\": name}"));
        },
    };
    let parent = card::parent(path);
    match routes::sanitize_path(&text::join3(&parent, "/", &to)) {
        Some(new) => {
            if text::has_char(&to, '/') || same(&new, path) {
                Err(error(Status::BadRequest, "bad name"))
            } else {
                Ok(new)
            }
        },
        None => Err(error(Status::BadRequest, "bad name")),
    }
}

/// Where a rename request puts a file, or what it is answered instead.
pub fn file_rename(path: &str, body: &[u8]) -> (r: Result<String, Answer>)
    ensures
        match asked_name(body@) {
            None => r matches Err(a) && a@ == Said::Error(Status::BadRequest, "expected {\"to\": name}"@),
            Some(t) => match renamed(path@, t) {
                Some(p) => r matches Ok(new) && new@ == p,
                None => r matches Err(a) && a@ == Said::Error(Status::BadRequest, "bad name"@),
            },
        },
{
    let to = match text::from_utf8(body) {
        Some(t) => json_str(&t, "to"),
        None => None,
    };
    rename_target(path, to)
}

/// A renamed file never leaves the paths a request may name: its new path is safe.
pub proof fn law_renamed_paths_are_safe(path: Seq<char>, to: Seq<char>)
    requires
        renamed(path, to) is Some,
    ensures
        (renamed(path, to)->0).len() > 0,
        (renamed(path, to)->0)[0] == '/',
        !routes::in_cache(renamed(path, to)->0),
        renamed(path, to)->0 != path,
{
    routes::law_sanitized_is_safe(card::folder(path) + "/"@ + to);
}

/// What a download request says, as its JSON was read.
#[derive(Clone, Debug, PartialEq, Eq)]
pub struct FetchFields {
    /// Address.
    pub url: Option<String>,
    /// Title.
    pub title: Option<String>,
    /// Author.
    pub author: Option<String>,
}

/// A text, or none.
pub open spec fn or_empty(t: Option<String>) -> Seq<char> {
    match t {
        Some(s) => s@,
        None => Seq::empty(),
    }
}

/// Whether an address can be downloaded from.
pub open spec fn is_web(url: Seq<char>) -> bool {
    ("http://"@.is_prefix_of(url) || "https://"@.is_prefix_of(url)) && text::utf8_len(url) <= 1024
}

/// What a download is called that has no title: the last part of its address before any query, or "Download".
pub open spec fn title_from(url: Seq<char>) -> Seq<char> {
    let name = card::leaf(url);
    let bare = name.take(text::first_at(name, '?'));
    if bare.len() > 0 {
        bare
    } else {
        "Download"@
    }
}

fn title_of(url: &str) -> (r: String)
    ensures
        r@ == title_from(url@),
{
    let name = card::file_name(url);
    let v = text::chars_of(&name);
    let n: usize = text::find_char(&v, '?');
    if n > 0 {
        let t = text::text_of(&v, 0, n);
        assert(t@ =~= name@.take(n as int));
        t
    } else {
        text::owned("Download")
    }
}

/// The download a request asks for, or what it is answered instead. `fields` is what its body says, if that is
/// JSON.
pub fn fetch(body: &[u8], fields: Option<FetchFields>) -> (r: Result<FetchRequest, Answer>)
    ensures
        is_fetch(valid_utf8(body@), fields, r),
        if !valid_utf8(body@) {
            r matches Err(a) && a@ == Said::Error(Status::BadRequest, "not UTF-8"@)
        } else {
            match fields {
                None => r matches Err(a) && a@ == Said::Error(Status::BadRequest, "not JSON"@),
                Some(f) => if !is_web(or_empty(f.url)) {
                    r matches Err(a) && a@ == Said::Error(Status::BadRequest, "url must be http or https"@)
                } else {
                    &&& r matches Ok(FetchRequest::Book { url, title, author, size })
                    &&& url@ == or_empty(f.url)
                    &&& title@ == if or_empty(f.title).len() > 0 {
                        or_empty(f.title)
                    } else {
                        title_from(or_empty(f.url))
                    }
                    &&& author@ == or_empty(f.author)
                    &&& size is None
                },
            }
        },
{
    if text::from_utf8(body).is_none() {
        return Err(error(Status::BadRequest, "not UTF-8"));
    }
    let f = match fields {
        Some(f) => f,
        None => {
            return Err(error(Status::BadRequest, "not JSON"));
        },
    };
    let url = match f.url {
        Some(u) => u,
        None => String::new(),
    };
    if !(text::starts_with(&url, "http://") || text::starts_with(&url, "https://")) || text::byte_len(&url) > 1024 {
        return Err(error(Status::BadRequest, "url must be http or https"));
    }
    let title = match f.title {
        Some(t) => {
            if t.as_str().is_empty() {
                title_of(&url)
            } else {
                t
            }
        },
        None => title_of(&url),
    };
    let author = match f.author {
        Some(a) => a,
        None => String::new(),
    };
    Ok(FetchRequest::Book { url, title, author, size: None })
}

/// What a queued download is answered.
pub fn queued() -> (r: Answer)
    ensures
        r@ == Said::Text(Status::Okay, "queued"),
{
    Resp::Text(Status::Okay, "queued")
}

/// What comes next in storing new settings.
#[derive(Clone, Debug, PartialEq, Eq)]
pub enum SettingsStep {
    /// Lay this text over the settings there are.
    Merge(String),
    /// Save the settings.
    Save,
    /// Save this PIN, tell the main loop, and answer with the settings.
    SavePin(String),
    /// Tell the main loop, and answer with the settings.
    Tell,
    /// Answer.
    Reply(Answer),
}

/// New settings came.
pub fn settings_put(body: &[u8]) -> (r: SettingsStep)
    ensures
        if valid_utf8(body@) {
            r matches SettingsStep::Merge(t) && t@ == decode_utf8(body@)
        } else {
            r matches SettingsStep::Reply(a) && a@ == Said::Error(Status::BadRequest, "not UTF-8"@)
        },
{
    match text::from_utf8(body) {
        Some(t) => SettingsStep::Merge(t),
        None => SettingsStep::Reply(error(Status::BadRequest, "not UTF-8")),
    }
}

/// The new settings were laid over the old ones, or why they could not be.
pub fn settings_merged(failed: Option<String>) -> (r: SettingsStep)
    ensures
        match failed {
            None => r is Save,
            Some(e) => r matches SettingsStep::Reply(a) && a@ == Said::Error(Status::BadRequest, e@),
        },
{
    match failed {
        None => SettingsStep::Save,
        Some(e) => SettingsStep::Reply(error(Status::BadRequest, &e)),
    }
}

/// The settings were saved, or could not be; `pin` is the PIN that came with them, if one did.
pub fn settings_saved(saved: Result<(), FsError>, pin: Option<String>) -> (r: SettingsStep)
    ensures
        is_after_saving(saved, pin, r),
        match saved {
            Err(e) => r matches SettingsStep::Reply(a) && a@ == card_error(e),
            Ok(_) => match pin {
                Some(p) => r == SettingsStep::SavePin(p),
                None => r is Tell,
            },
        },
{
    match saved {
        Err(e) => SettingsStep::Reply(fs_error(&e)),
        Ok(_) => match pin {
            Some(p) => SettingsStep::SavePin(p),
            None => SettingsStep::Tell,
        },
    }
}

/// A request that is let through has done what it was routed to, and nothing is done that it was not routed to: a file
/// is deleted, sent, received or renamed exactly where the route says so, and that very file.
pub proof fn law_requests_do_what_they_were_routed_to(route: RouteView, p: Seq<char>, wifi: WifiState, ap_ip: Seq<char>)
    ensures
        ({
            let act = handled(route, true, wifi, ap_ip);
            &&& act == ActView::FileDelete(p) <==> route == RouteView::FileDelete(p)
            &&& act == ActView::FileGet(p) <==> route == RouteView::FileGet(p)
            &&& act == ActView::FilePut(p) <==> route == RouteView::FilePut(p)
            &&& act == ActView::Body(Small::Rename(p)) <==> route == RouteView::FileRename(p)
            &&& act is FileDelete <==> route is FileDelete
            &&& act is FileGet <==> route is FileGet
            &&& act is FilePut <==> route is FilePut
            &&& act is Upload <==> route is Upload
            &&& act is Sleep <==> route is Sleep
            &&& act is Screen <==> route is Screen
            &&& act is Upgrade <==> route is Ws
            &&& act is Captive <==> route is Captive
            &&& act == ActView::Body(Small::Settings) <==> route is SettingsPut
            &&& act == ActView::Body(Small::Fetch) <==> route is Fetch
            &&& act == ActView::Document(Document::Status) <==> route is Status
            &&& act == ActView::Document(Document::Library) <==> route is Library
            &&& act == ActView::Document(Document::Stats) <==> route is Stats
            &&& act == ActView::Document(Document::Settings) <==> route is SettingsGet
            &&& act == ActView::Reply(Resp::Gz(Asset::Index)) <==> route is Index
            &&& act == ActView::Reply(Resp::Gz(Asset::Manifest)) <==> route is Manifest
            &&& act == ActView::Reply(Resp::Gz(Asset::ServiceWorker)) <==> route is ServiceWorker
            &&& act == ActView::Reply(Resp::Svg) <==> route is Icon
        }),
{
}

/// What comes of a request for a file that is let through: the file that its path names is sent, stored or deleted.
pub proof fn law_file_requests_reach_their_file(rest: Seq<char>, p: Seq<char>, wifi: WifiState, ap_ip: Seq<char>)
    requires
        routes::sanitized(routes::percent_decoded(rest)) == Some(p),
    ensures
        handled(routes::routed("GET"@, "/api/files/"@ + rest), true, wifi, ap_ip) == ActView::FileGet(p),
        handled(routes::routed("PUT"@, "/api/files/"@ + rest), true, wifi, ap_ip) == ActView::FilePut(p),
        handled(routes::routed("DELETE"@, "/api/files/"@ + rest), true, wifi, ap_ip) == ActView::FileDelete(p),
{
    routes::law_file_requests_name_their_file(rest, p);
}

/// Only a request with the method for it touches a file: a file is deleted for `DELETE` alone, stored for `PUT` alone
/// and renamed for `POST` alone, and only at its own path.
pub proof fn law_files_change_for_their_method_alone(
    m: Seq<char>,
    path: Seq<char>,
    admitted: bool,
    wifi: WifiState,
    ap_ip: Seq<char>,
)
    ensures
        ({
            let act = handled(routes::routed(m, path), admitted, wifi, ap_ip);
            &&& act is FileDelete ==> admitted && m == "DELETE"@
            &&& act is FilePut ==> admitted && m == "PUT"@
            &&& act matches Act::Body(Small::Rename(_)) ==> admitted && m == "POST"@
            &&& act is FileGet ==> admitted && (m == "GET"@ || m == "HEAD"@)
            &&& act is FileDelete || act is FilePut || act is FileGet ==> "/api/files/"@.is_prefix_of(path)
        }),
{
    routes::law_method_stands_behind_the_route(m, path);
}

/// A request that is not let through is answered that it needs the PIN, whatever it asks; only a socket is opened
/// without.
pub proof fn law_refused_requests_are_told(route: RouteView, wifi: WifiState, ap_ip: Seq<char>)
    requires
        !(route is Ws),
    ensures
        handled(route, false, wifi, ap_ip) matches Act::Reply(r) && r.status_of().number() == 403 && r is Error,
{
}

/// A device that probes for a portal is sent to the captive page at the access point's own address, and that page
/// says where the reader is found: at the address it has, or at that of its access point.
pub proof fn law_probes_lead_to_the_captive_page(wifi: WifiState, ap_ip: Seq<char>)
    ensures
        handled(RouteView::CaptiveProbe, true, wifi, ap_ip) matches Act::Reply(r) && r.status_of().number() == 302
            && headers_of(r)[0] == header("Location", "http://"@ + ap_ip + "/captive"@),
        routes::routed("GET"@, "/captive"@) is Captive,
        wifi matches WifiState::Connected { ip, .. } ==> handled(RouteView::Captive, true, wifi, ap_ip) == ActView::Captive(ip@),
        wifi matches WifiState::Hotspot { ip, .. } ==> handled(RouteView::Captive, true, wifi, ap_ip) == ActView::Captive(ip@),
        !(wifi is Connected) && !(wifi is Hotspot) ==> handled(RouteView::Captive, true, wifi, ap_ip) == ActView::Captive(
            ap_ip,
        ),
{
    routes::law_each_page_has_its_paths("GET"@, "/captive"@);
}

/// What is not there, or not to be had that way, is answered with the status for it.
pub proof fn law_nothing_there_is_told(wifi: WifiState, ap_ip: Seq<char>)
    ensures
        handled(RouteView::NotFound, true, wifi, ap_ip) matches Act::Reply(r) && r.status_of().number() == 404,
        handled(RouteView::MethodNotAllowed, true, wifi, ap_ip) matches Act::Reply(r) && r.status_of().number() == 405,
        handled(RouteView::AppleProbe, true, wifi, ap_ip) matches Act::Reply(r) && r.status_of().number() == 200 && r is Html,
{
}

/// No two statuses have the same number, and the number tells what kind it is: two hundred and more that it went well,
/// three hundred that it is elsewhere, four hundred that the request is at fault, five hundred that the reader is.
pub proof fn law_statuses_are_told_apart(a: Status, b: Status)
    ensures
        a.number() == b.number() ==> a == b,
        200 <= a.number() < 300 <==> a is Okay || a is Created || a is NoContent,
        300 <= a.number() < 400 <==> a is Found || a is SeeOther,
        400 <= a.number() < 500 <==> a is BadRequest || a is Forbidden || a is NotFound || a is MethodNotAllowed || a is Conflict
            || a is PayloadTooLarge,
        500 <= a.number() < 600 <==> a is ServerError || a is Unavailable || a is InsufficientStorage,
{
}

/// A card error is answered as what it is: a file that is not there as not found, a full card as full, and anything
/// else as a fault of the reader, with the error's name.
pub proof fn law_card_errors_are_told(e: FsError)
    ensures
        card_error(e) is Error,
        card_error(e).status_of().number() == 404 <==> e is NotFound,
        card_error(e).status_of().number() == 507 <==> e is Full,
        !(e is NotFound) && !(e is Full) ==> card_error(e) == Said::Error(Status::ServerError, e.name()),
{
}

/// Every answer that says something says what it is; what is answered to one request is not kept for another; a
/// redirect says where to, and a packed page that it is packed.
pub proof fn law_answers_say_what_they_are(r: Said)
    ensures
        r is Error || r is Received || r is Path || r is Added ==> headers_of(r).contains(
            header("Content-Type", "application/json"@),
        ) && headers_of(r).contains(header("Cache-Control", "no-store"@)),
        r is Html ==> headers_of(r).contains(header("Content-Type", "text/html; charset=utf-8"@)) && headers_of(r).contains(
            header("Cache-Control", "no-store"@),
        ),
        r matches Resp::Redirect(_, to) ==> headers_of(r).contains(header("Location", to)) && headers_of(r).contains(
            header("Cache-Control", "no-store"@),
        ),
        r matches Resp::File(name, _, ct) ==> headers_of(r).contains(header("Content-Type", ct@)) && headers_of(r).contains(
            header("Content-Disposition", "attachment; filename=\""@ + name + "\""@),
        ),
        r is Gz ==> headers_of(r).contains(header("Content-Encoding", "gzip"@)) && headers_of(r).contains(
            header("Cache-Control", "no-cache"@),
        ),
        r == Said::Gz(Asset::Index) ==> headers_of(r).contains(header("Content-Type", "text/html; charset=utf-8"@)),
        r == Said::Gz(Asset::Manifest) ==> headers_of(r).contains(header("Content-Type", "application/manifest+json"@)),
        r == Said::Gz(Asset::ServiceWorker) ==> headers_of(r).contains(header("Content-Type", "text/javascript"@)),
        r is Svg ==> headers_of(r).contains(header("Content-Type", "image/svg+xml"@)),
        r is Empty || r is Text ==> headers_of(r).len() == 0,
{
    let h = headers_of(r);
    if h.len() > 0 {
        assert(h.contains(h[0]));
        assert(h.contains(h[1]));
        if h.len() > 2 {
            assert(h.contains(h[2]));
        }
    }
}

/// A card file is sent as what its extension says: pictures as images, texts as text in UTF-8, and what is not known
/// as bytes.
pub proof fn law_content_types_go_by_kind(ext: Seq<char>)
    ensures
        "image/"@.is_prefix_of(content_type(ext)@) <==> ext == "pbm"@ || ext == "png"@ || ext == "jpg"@ || ext == "jpeg"@,
        "text/"@.is_prefix_of(content_type(ext)@) <==> ext == "txt"@ || ext == "log"@ || ext == "md"@ || ext == "markdown"@ || ext
            == "html"@ || ext == "htm"@ || ext == "xhtml"@,
        content_type("epub"@) == content_type("kepub"@),
        content_type("jpg"@) == content_type("jpeg"@) && content_type("jpg"@) != content_type("png"@),
        content_type("html"@) == content_type("xhtml"@) && content_type("html"@) != content_type("txt"@),
{
    lemma_extensions();
    let ct = content_type(ext)@;
    reveal_strlit("image/");
    reveal_strlit("text/");
    assert(ct.len() > 6);
    if "image/"@.is_prefix_of(ct) {
        assert(ct.subrange(0, 6)[0] == "image/"@[0]);
    }
    if "text/"@.is_prefix_of(ct) {
        assert(ct.subrange(0, 5)[0] == "text/"@[0]);
    }
    if ext == "pbm"@ || ext == "png"@ || ext == "jpg"@ || ext == "jpeg"@ {
        assert(ct.subrange(0, 6) =~= "image/"@);
        assert(ct.subrange(0, 6)[0] == "image/"@[0]);
        assert(ct[0] != "text/"@[0]);
    } else if ext == "txt"@ || ext == "log"@ || ext == "md"@ || ext == "markdown"@ || ext == "html"@ || ext == "htm"@ || ext
        == "xhtml"@ {
        assert(ct.subrange(0, 5) =~= "text/"@);
        assert(ct.subrange(0, 5)[0] == "text/"@[0]);
        assert(ct[0] != "image/"@[0]);
    } else {
        assert(ct[0] == 'a');
    }
}

proof fn lemma_extensions()
    ensures
        "epub"@.len() == 4 && "epub"@[0] == 'e',
        "kepub"@.len() == 5 && "kepub"@[0] == 'k',
        "txt"@.len() == 3 && "txt"@[0] == 't',
        "log"@.len() == 3 && "log"@[0] == 'l',
        "md"@.len() == 2,
        "markdown"@.len() == 8,
        "html"@.len() == 4 && "html"@[0] == 'h',
        "htm"@.len() == 3 && "htm"@[0] == 'h',
        "xhtml"@.len() == 5 && "xhtml"@[0] == 'x',
        "fb2"@.len() == 3 && "fb2"@[0] == 'f',
        "xml"@.len() == 3 && "xml"@[0] == 'x',
        "opf"@.len() == 3 && "opf"@[0] == 'o',
        "cbz"@.len() == 3 && "cbz"@[0] == 'c',
        "zip"@.len() == 3 && "zip"@[0] == 'z',
        "pbm"@.len() == 3 && "pbm"@[0] == 'p' && "pbm"@[1] == 'b',
        "png"@.len() == 3 && "png"@[0] == 'p' && "png"@[1] == 'n',
        "jpg"@.len() == 3 && "jpg"@[0] == 'j',
        "jpeg"@.len() == 4 && "jpeg"@[0] == 'j',
        "json"@.len() == 4 && "json"@[0] == 'j' && "json"@[1] == 's' && "jpeg"@[1] == 'p',
        "application/epub+zip"@.len() > 6 && "application/epub+zip"@[0] == 'a',
        "application/xml"@.len() > 6 && "application/xml"@[0] == 'a',
        "application/zip"@.len() > 6 && "application/zip"@[0] == 'a',
        "application/json"@.len() > 6 && "application/json"@[0] == 'a',
        "application/octet-stream"@.len() > 6 && "application/octet-stream"@[0] == 'a',
        "text/plain; charset=utf-8"@.len() == 25,
        "text/html; charset=utf-8"@.len() == 24,
        "image/png"@.len() == 9,
        "image/jpeg"@.len() == 10,
        "text/markdown; charset=utf-8"@.len() > 6,
        "image/x-portable-bitmap"@.len() > 6,
        "text/plain; charset=utf-8"@.subrange(0, 5) == "text/"@,
        "text/html; charset=utf-8"@.subrange(0, 5) == "text/"@,
        "text/markdown; charset=utf-8"@.subrange(0, 5) == "text/"@,
        "image/png"@.subrange(0, 6) == "image/"@,
        "image/jpeg"@.subrange(0, 6) == "image/"@,
        "image/x-portable-bitmap"@.subrange(0, 6) == "image/"@,
{
    reveal_strlit("epub");
    reveal_strlit("kepub");
    reveal_strlit("txt");
    reveal_strlit("log");
    reveal_strlit("md");
    reveal_strlit("markdown");
    reveal_strlit("html");
    reveal_strlit("htm");
    reveal_strlit("xhtml");
    reveal_strlit("fb2");
    reveal_strlit("xml");
    reveal_strlit("opf");
    reveal_strlit("cbz");
    reveal_strlit("zip");
    reveal_strlit("pbm");
    reveal_strlit("png");
    reveal_strlit("jpg");
    reveal_strlit("jpeg");
    reveal_strlit("json");
    reveal_strlit("application/epub+zip");
    reveal_strlit("application/xml");
    reveal_strlit("application/zip");
    reveal_strlit("application/json");
    reveal_strlit("application/octet-stream");
    reveal_strlit("text/plain; charset=utf-8");
    reveal_strlit("text/html; charset=utf-8");
    reveal_strlit("text/markdown; charset=utf-8");
    reveal_strlit("image/png");
    reveal_strlit("image/jpeg");
    reveal_strlit("image/x-portable-bitmap");
    reveal_strlit("text/");
    reveal_strlit("image/");
    assert("text/plain; charset=utf-8"@.subrange(0, 5) =~= "text/"@);
    assert("text/html; charset=utf-8"@.subrange(0, 5) =~= "text/"@);
    assert("text/markdown; charset=utf-8"@.subrange(0, 5) =~= "text/"@);
    assert("image/png"@.subrange(0, 6) =~= "image/"@);
    assert("image/jpeg"@.subrange(0, 6) =~= "image/"@);
    assert("image/x-portable-bitmap"@.subrange(0, 6) =~= "image/"@);
}

/// A file that is to be sent is read in pieces that lie in it, none larger than a piece may be, each where the one
/// before ended, and something is read as long as something is left.
pub proof fn law_pieces_lie_in_the_file(f: FileSend)
    requires
        f.wf(),
    ensures
        0 <= f.next_piece() <= 4096,
        f.off + f.next_piece() <= f.len,
        f.off < f.len <==> f.next_piece() > 0,
        f.len - f.off >= 4096 ==> f.next_piece() == 4096,
        f.len - f.off < 4096 ==> f.off + f.next_piece() == f.len,
{
}

/// A file keeps its folder when it is renamed and gets the name asked for, where that can be stored.
pub proof fn law_renamed_file_stays_in_its_folder(folders: Seq<Seq<char>>, name: Seq<char>, to: Seq<char>)
    requires
        forall|i: int| 0 <= i < folders.len() ==> routes::good_segment(#[trigger] folders[i]) && !folders[i].contains('/'),
        routes::good_segment(to),
        !to.contains('/'),
        !name.contains('/'),
        name != to,
        text::trimmed(routes::joined(folders.push(to))) == routes::joined(folders.push(to)),
        text::utf8_len(routes::joined(folders.push(to))) <= 255,
        !routes::in_cache(routes::joined(folders.push(to))),
    ensures
        renamed(routes::joined(folders.push(name)), to) == Some(routes::joined(folders.push(to))),
{
    let path = routes::joined(folders.push(name));
    let new = routes::joined(folders.push(to));
    assert(folders.push(name).drop_last() =~= folders);
    assert(folders.push(to).drop_last() =~= folders);
    assert(path == routes::joined(folders).push('/') + name);
    assert(new == routes::joined(folders).push('/') + to);
    card::law_parts_of_a_path(routes::joined(folders), name);
    reveal_strlit("/");
    assert(card::folder(path) + "/"@ + to =~= new);
    assert forall|i: int| 0 <= i < folders.push(to).len() implies routes::good_segment(#[trigger] folders.push(to)[i])
        && !folders.push(to)[i].contains('/') by {
        if i < folders.len() {
            assert(folders.push(to)[i] == folders[i]);
        }
    }
    routes::law_good_paths_stay(folders.push(to));
    if new == path {
        assert(name =~= path.skip(routes::joined(folders).len() as int + 1));
        assert(to =~= new.skip(routes::joined(folders).len() as int + 1));
    }
}

/// Only addresses of the web are downloaded from, and not overlong ones.
pub proof fn law_downloads_come_from_the_web(rest: Seq<char>, url: Seq<char>)
    ensures
        is_web("http://"@ + rest) <==> text::utf8_len("http://"@ + rest) <= 1024,
        is_web("https://"@ + rest) <==> text::utf8_len("https://"@ + rest) <= 1024,
        is_web(url) ==> text::utf8_len(url) <= 1024 && (url.take(7) == "http://"@ || url.take(8) == "https://"@),
{
    reveal_strlit("http://");
    reveal_strlit("https://");
    assert(("http://"@ + rest).subrange(0, 7) =~= "http://"@);
    assert(("https://"@ + rest).subrange(0, 8) =~= "https://"@);
    if "http://"@.is_prefix_of(url) {
        assert(url.take(7) =~= "http://"@);
    }
    if "https://"@.is_prefix_of(url) {
        assert(url.take(8) =~= "https://"@);
    }
}

/// A download without a title is called by the last name of its address, without what is asked behind it.
pub proof fn law_untitled_downloads_are_named(base: Seq<char>, name: Seq<char>, asked: Seq<char>)
    requires
        name.len() > 0,
        !name.contains('/'),
        !name.contains('?'),
        !asked.contains('/'),
    ensures
        title_from(base.push('/') + name) == name,
        title_from(base.push('/') + (name.push('?') + asked)) == name,
{
    let long = name.push('?') + asked;
    assert forall|i: int| 0 <= i < long.len() implies long[i] != '/' by {
        if i < name.len() {
            assert(name[i] != '/');
        } else if i > name.len() {
            assert(asked[i - name.len() - 1] != '/');
        }
    }
    card::law_parts_of_a_path(base, name);
    card::law_parts_of_a_path(base, long);
    text::law_first_stands_before(name, '?', Seq::empty());
    text::law_first_stands_before(name, '?', asked);
    assert(name.take(name.len() as int) =~= name);
    assert(long.take(name.len() as int) =~= name);
}

/// Where a PIN is set and did not come with the request, nothing is written: a file is neither stored nor deleted nor
/// renamed, nothing is uploaded, no setting changes and nothing is downloaded. What only reads goes through; so does
/// everything where no PIN is set, or where it came.
pub proof fn law_writing_needs_the_pin(
    m: Seq<char>,
    path: Seq<char>,
    pin: Seq<char>,
    checked: bool,
    wifi: WifiState,
    ap_ip: Seq<char>,
)
    ensures
        ({
            let route = routes::routed(m, path);
            let act = handled(route, let_through(route, pin, checked), wifi, ap_ip);
            &&& pin.len() > 0 && !checked ==> !(act is FilePut) && !(act is FileDelete) && !(act is Upload) && !(act is Sleep)
                && !(act is Body)
            &&& m == "GET"@ || m == "HEAD"@ ==> let_through(route, pin, checked)
            &&& pin.len() == 0 || checked ==> let_through(route, pin, checked)
        }),
{
    if m == "GET"@ || m == "HEAD"@ {
        routes::law_reading_never_writes(m, path);
    }
}

/// Whether a body is small enough to be read whole.
pub open spec fn fits_in_memory(len: usize, max: usize) -> bool {
    len <= max
}

/// A body is read whole where it is no longer than it may be: one that just fits is, and one that is a byte longer is not.
pub proof fn law_small_bodies_are_read_whole(max: usize)
    requires
        max < usize::MAX,
    ensures
        fits_in_memory(max, max),
        fits_in_memory(0, max),
        !fits_in_memory((max + 1) as usize, max),
{
}

/// Whether this is the download asked for, or what is answered instead.
pub open spec fn is_fetch(readable: bool, fields: Option<FetchFields>, r: Result<FetchRequest, Answer>) -> bool {
    if !readable || fields is None || !is_web(or_empty((fields->0).url)) {
        r matches Err(a) && a@.status_of() == Status::BadRequest && a@ is Error
    } else {
        &&& r matches Ok(FetchRequest::Book { url, title, author, size })
        &&& url@ == or_empty((fields->0).url)
        &&& title@ == if or_empty((fields->0).title).len() > 0 {
            or_empty((fields->0).title)
        } else {
            title_from(or_empty((fields->0).url))
        }
        &&& author@ == or_empty((fields->0).author)
    }
}

/// A download is queued for an address of the web, under its title and author as they came; what is no such request is
/// answered as one that makes no sense.
pub proof fn law_downloads_are_as_asked(f: FetchFields, url: String, title: String, author: String, r: Result<FetchRequest, Answer>)
    requires
        is_fetch(true, Some(f), r),
        f.url == Some(url),
        f.title == Some(title),
        f.author == Some(author),
        title@.len() > 0,
    ensures
        r matches Ok(FetchRequest::Book { url: u, title: t, author: a, size }) ==> u@ == url@ && t@ == title@ && a@ == author@,
        r is Ok <==> is_web(url@),
        r matches Err(a) ==> a@.status_of().number() == 400,
{
}

impl FileSend {
    /// Where the next piece is read, and how much.
    pub open spec fn wants(self) -> Option<(usize, usize)> {
        if self.off < self.len {
            Some((self.off, self.next_piece() as usize))
        } else {
            None
        }
    }

    /// How the sending stands after a read.
    pub open spec fn after_read(self, n: usize) -> FileSend {
        FileSend { len: if n > 0 { self.len } else { self.off }, off: (self.off + n) as usize }
    }
}

/// A file is sent from its start to its end: each piece is asked for where the one before ended, whatever a read gives
/// of it, and when none is asked for any more everything was sent. A read that gives nothing ends the sending.
pub proof fn law_file_is_sent_from_start_to_end(f: FileSend, n: usize)
    requires
        f.wf(),
        n <= f.next_piece(),
    ensures
        f.wants() is None <==> f.off == f.len,
        f.wants() matches Some((at, k)) ==> at == f.off && 0 < k <= 4096 && at + k <= f.len,
        f.after_read(n).wf(),
        n > 0 && f.after_read(n).off < f.len ==> (f.after_read(n).wants() matches Some((at, _)) && at == f.off + n),
        n > 0 ==> f.after_read(n).len == f.len,
        n == 0 ==> f.after_read(n).wants() is None,
        (FileSend { len: f.len, off: 0 }).wants() matches Some((at, _)) ==> at == 0,
{
}

/// Whether this is where a file is renamed to, or what is answered instead.
pub open spec fn is_rename(path: Seq<char>, to: Option<Seq<char>>, r: Result<String, Answer>) -> bool {
    match to {
        None => r matches Err(a) && a@ is Error && a@.status_of() == Status::BadRequest,
        Some(t) => match renamed(path, t) {
            Some(p) => r matches Ok(new) && new@ == p,
            None => r matches Err(a) && a@ is Error && a@.status_of() == Status::BadRequest,
        },
    }
}

/// A name with a slash in it is no name for a file, and so is the one that the file has; a request without a name is
/// answered as one that makes no sense.
pub proof fn law_bad_names_are_refused(path: Seq<char>, to: Seq<char>, r: Result<String, Answer>, s: Result<String, Answer>)
    requires
        is_rename(path, Some(to), r),
        is_rename(path, None, s),
    ensures
        to.contains('/') ==> (r matches Err(a) && a@.status_of().number() == 400),
        r matches Ok(new) ==> new@ != path,
        s matches Err(a) && a@.status_of().number() == 400,
{
}

/// Whether this is what comes after settings were saved, or could not be.
pub open spec fn is_after_saving(saved: Result<(), FsError>, pin: Option<String>, r: SettingsStep) -> bool {
    match saved {
        Err(e) => r matches SettingsStep::Reply(a) && a@ == card_error(e),
        Ok(_) => match pin {
            Some(p) => r == SettingsStep::SavePin(p),
            None => r is Tell,
        },
    }
}

/// A PIN that came with new settings is saved once they are, and not where they could not be.
pub proof fn law_pin_is_saved_with_the_settings(e: FsError, pin: String, r: SettingsStep, s: SettingsStep, t: SettingsStep)
    requires
        is_after_saving(Ok(()), Some(pin), r),
        is_after_saving(Ok(()), None, s),
        is_after_saving(Err(e), Some(pin), t),
    ensures
        r == SettingsStep::SavePin(pin),
        s is Tell,
        t matches SettingsStep::Reply(a) && a@ == card_error(e),
{
}

/// What may be sent to be read whole: eight kilobytes of settings or a name, and sixty-four of a sleep image.
pub proof fn law_whole_bodies_are_small()
    ensures
        MAX_JSON_BODY == 8 * 1024,
        MAX_SLEEP_BODY == 64 * 1024,
{
}

} // verus!
