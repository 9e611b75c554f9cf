//! The URL routing table of the Drop page server, and the path rules for files.
use vstd::prelude::*;
use vstd::utf8::encode_utf8;

use crate::text;
use crate::text::same;

verus! {

/// Where a request goes.
#[derive(Clone, Debug, PartialEq, Eq)]
pub enum Route {
    /// The Drop page (also served at `/type`, which opens the Window tab).
    Index,
    /// The captive landing page.
    Captive,
    /// An OS captive-portal probe: redirect to `/captive`.
    CaptiveProbe,
    /// Apple's reachability probe, answered with the success page it wants.
    AppleProbe,
    /// PWA manifest.
    Manifest,
    /// Service worker.
    ServiceWorker,
    /// App icon.
    Icon,
    /// `GET /api/status`.
    Status,
    /// `GET /api/library`.
    Library,
    /// `GET /api/files/<path>`: download.
    FileGet(String),
    /// `PUT /api/files/<path>`: upload (resumable).
    FilePut(String),
    /// `DELETE /api/files/<path>`.
    FileDelete(String),
    /// `POST /api/files/<path>/rename`.
    FileRename(String),
    /// `POST /upload`: multipart fallback.
    Upload,
    /// `GET /api/settings`.
    SettingsGet,
    /// `PUT /api/settings`.
    SettingsPut,
    /// `GET /api/stats`.
    Stats,
    /// `GET /api/screen.pbm`.
    Screen,
    /// `GET /ws`.
    Ws,
    /// `POST /sleep?name=`: a dithered sleep image.
    Sleep,
    /// `POST /api/fetch`: ask the client-side fetchers for something.
    Fetch,
    /// Unknown path.
    NotFound,
    /// Known path, wrong method.
    MethodNotAllowed,
}

/// What a [`Route`] is, with its path as a sequence of characters.
pub enum RouteView {
    Index,
    Captive,
    CaptiveProbe,
    AppleProbe,
    Manifest,
    ServiceWorker,
    Icon,
    Status,
    Library,
    FileGet(Seq<char>),
    FilePut(Seq<char>),
    FileDelete(Seq<char>),
    FileRename(Seq<char>),
    Upload,
    SettingsGet,
    SettingsPut,
    Stats,
    Screen,
    Ws,
    Sleep,
    Fetch,
    NotFound,
    MethodNotAllowed,
}

impl View for Route {
    type V = RouteView;

    open spec fn view(&self) -> RouteView {
        match *self {
            Route::Index => RouteView::Index,
            Route::Captive => RouteView::Captive,
            Route::CaptiveProbe => RouteView::CaptiveProbe,
            Route::AppleProbe => RouteView::AppleProbe,
            Route::Manifest => RouteView::Manifest,
            Route::ServiceWorker => RouteView::ServiceWorker,
            Route::Icon => RouteView::Icon,
            Route::Status => RouteView::Status,
            Route::Library => RouteView::Library,
            Route::FileGet(p) => RouteView::FileGet(p@),
            Route::FilePut(p) => RouteView::FilePut(p@),
            Route::FileDelete(p) => RouteView::FileDelete(p@),
            Route::FileRename(p) => RouteView::FileRename(p@),
            Route::Upload => RouteView::Upload,
            Route::SettingsGet => RouteView::SettingsGet,
            Route::SettingsPut => RouteView::SettingsPut,
            Route::Stats => RouteView::Stats,
            Route::Screen => RouteView::Screen,
            Route::Ws => RouteView::Ws,
            Route::Sleep => RouteView::Sleep,
            Route::Fetch => RouteView::Fetch,
            Route::NotFound => RouteView::NotFound,
            Route::MethodNotAllowed => RouteView::MethodNotAllowed,
        }
    }
}

impl RouteView {
    /// Whether the route changes the card or the device.
    pub open spec fn writes(self) -> bool {
        self is FilePut || self is FileDelete || self is FileRename || self is Upload || self is SettingsPut
            || self is Sleep || self is Fetch
    }
}

impl Route {
    /// Whether the route changes the card or the device (PIN-gated).
    pub fn is_write(&self) -> (r: bool)
        ensures
            r == self@.writes(),
    {
        match self {
            Route::FilePut(_) | Route::FileDelete(_) | Route::FileRename(_) | Route::Upload | Route::SettingsPut
            | Route::Sleep | Route::Fetch => true,
            _ => false,
        }
    }
}

/// What macOS and iOS expect from their probe, byte for byte.
pub const APPLE_SUCCESS: &'static str = "<HTML><HEAD><TITLE>Success</TITLE></HEAD><BODY>Success</BODY></HTML>\n";

/// Directory files land in when a request gives a bare name.
pub const BOOKS_DIR: &'static str = "/Books";

/// The value of a hexadecimal digit.
pub open spec fn hex_value(b: u8) -> Option<int> {
    if 0x30 <= b <= 0x39 {
        Some(b - 0x30)
    } else if 0x41 <= b <= 0x46 {
        Some(b - 0x41 + 10)
    } else if 0x61 <= b <= 0x66 {
        Some(b - 0x61 + 10)
    } else {
        None
    }
}

fn hex(b: u8) -> (r: Option<u8>)
    ensures
        r is Some <==> hex_value(b) is Some,
        r matches Some(v) ==> hex_value(b) == Some(v as int) && v < 16,
{
    if 0x30 <= b && b <= 0x39 {
        Some(b - 0x30)
    } else if 0x41 <= b && b <= 0x46 {
        Some(b - 0x41 + 10)
    } else if 0x61 <= b && b <= 0x66 {
        Some(b - 0x61 + 10)
    } else {
        None
    }
}

/// Whether bytes start with a whole `%XX` escape.
pub open spec fn is_escape(b: Seq<u8>) -> bool {
    b.len() >= 3 && b[0] == 0x25 && hex_value(b[1]) is Some && hex_value(b[2]) is Some
}

/// Bytes with every `%XX` escape replaced by the byte it names; anything else stays.
pub open spec fn unescaped(b: Seq<u8>) -> Seq<u8>
    decreases b.len(),
{
    if b.len() == 0 {
        Seq::empty()
    } else if is_escape(b) {
        seq![(16 * hex_value(b[1])->0 + hex_value(b[2])->0) as u8] + unescaped(b.skip(3))
    } else {
        seq![b[0]] + unescaped(b.skip(1))
    }
}

/// A text with its percent escapes decoded.
pub open spec fn percent_decoded(s: Seq<char>) -> Seq<char> {
    text::read_as_text(unescaped(encode_utf8(s)))
}

/// Decode the percent escapes of a text; what is not a whole escape stays as it is.
pub fn percent_decode(s: &str) -> (r: String)
    ensures
        r@ == percent_decoded(s@),
{
    let b = s.as_bytes();
    let mut out: Vec<u8> = Vec::new();
    let mut i: usize = 0;
    assert(b@.skip(0) =~= b@);
    assert(out@ + unescaped(b@) =~= unescaped(b@));
    while i < b.len()
        invariant
            i <= b@.len(),
            unescaped(b@) == out@ + unescaped(b@.skip(i as int)),
        decreases b@.len() - i,
    {
        let ghost rest = b@.skip(i as int);
        let ghost before = out@;
        let mut step: usize = 1;
        let mut byte: u8 = b[i];
        if byte == 0x25 && b.len() - i >= 3 {
            if let (Some(h), Some(l)) = (hex(b[i + 1]), hex(b[i + 2])) {
                byte = 16 * h + l;
                step = 3;
            }
        }
        out.push(byte);
        assert(rest.skip(step as int) =~= b@.skip(i + step));
        assert(before + (seq![byte] + unescaped(rest.skip(step as int))) =~= out@ + unescaped(b@.skip(i + step)));
        i += step;
    }
    assert(out@ + unescaped(b@.skip(i as int)) =~= out@);
    text::from_utf8_lossy(&out)
}

/// The pieces of a path that hold something.
pub open spec fn nonempty(ps: Seq<Seq<char>>) -> Seq<Seq<char>>
    decreases ps.len(),
{
    if ps.len() == 0 {
        Seq::empty()
    } else if ps.last().len() > 0 {
        nonempty(ps.drop_last()).push(ps.last())
    } else {
        nonempty(ps.drop_last())
    }
}

/// The names a path is made of.
pub open spec fn segments(p: Seq<char>) -> Seq<Seq<char>> {
    nonempty(text::pieces(p, '/'))
}

/// A character FAT cannot store in a name.
pub open spec fn forbidden(c: char) -> bool {
    (c as u32) < 0x20 || c as u32 == 0x7f || c == '\\' || c == ':' || c == '*' || c == '?' || c == '"' || c == '<'
        || c == '>' || c == '|'
}

/// A name that may stand in a path: it does not end in a dot (so it is neither `.` nor
/// `..`) or a space, and holds no character FAT cannot store.
pub open spec fn good_segment(s: Seq<char>) -> bool {
    s.len() > 0 && s.last() != '.' && s.last() != ' ' && forall|i: int| 0 <= i < s.len() ==> !forbidden(#[trigger] s[i])
}

/// Names joined into an absolute path.
pub open spec fn joined(segs: Seq<Seq<char>>) -> Seq<char>
    decreases segs.len(),
{
    if segs.len() == 0 {
        Seq::empty()
    } else {
        joined(segs.drop_last()).push('/') + segs.last()
    }
}

/// Whether a path is the cache folder or lies in it.
pub open spec fn in_cache(p: Seq<char>) -> bool {
    p == "/.quire"@ || "/.quire/"@.is_prefix_of(p)
}

/// The card path that a request's path stands for, if it stands for one.
pub open spec fn sanitized(p: Seq<char>) -> Option<Seq<char>> {
    let t = text::trimmed(p);
    let segs = segments(t);
    let bare = segs.len() == 1 && t[0] != '/';
    let out = (if bare { BOOKS_DIR@ } else { Seq::empty() }) + joined(segs);
    if 0 < t.len() && text::utf8_len(t) <= 255 && segs.len() > 0 && (forall|i: int|
        0 <= i < segs.len() ==> good_segment(#[trigger] segs[i])) && !in_cache(out) {
        Some(out)
    } else {
        None
    }
}

fn name_is_good(s: &str) -> (r: bool)
    ensures
        r == good_segment(s@),
{
    let v = text::chars_of(s);
    if v.len() == 0 || v[v.len() - 1] == '.' || v[v.len() - 1] == ' ' {
        return false;
    }
    let mut i: usize = 0;
    while i < v.len()
        invariant
            i <= v@.len(),
            v@ == s@,
            forall|j: int| 0 <= j < i ==> !forbidden(#[trigger] v@[j]),
        decreases v@.len() - i,
    {
        let c: char = v[i];
        let n: u32 = c as u32;
        if n < 0x20 || n == 0x7f || c == '\\' || c == ':' || c == '*' || c == '?' || c == '"' || c == '<' || c == '>'
            || c == '|' {
            assert(forbidden(v@[i as int]));
            return false;
        }
        i += 1;
    }
    true
}

fn split_path(p: &str) -> (r: Vec<String>)
    ensures
        text::texts(r@) == segments(p@),
{
    let all = text::split(p, '/');
    let mut out: Vec<String> = Vec::new();
    let mut i: usize = 0;
    assert(text::texts(out@) =~= nonempty(text::texts(all@).take(0)));
    while i < all.len()
        invariant
            i <= all@.len(),
            text::texts(all@) == text::pieces(p@, '/'),
            text::texts(out@) == nonempty(text::texts(all@).take(i as int)),
        decreases all@.len() - i,
    {
        let ghost ps = text::texts(all@);
        let ghost before = text::texts(out@);
        assert(ps.take(i + 1).drop_last() =~= ps.take(i as int));
        if !all[i].as_str().is_empty() {
            out.push(all[i].clone());
            assert(text::texts(out@) =~= before.push(ps[i as int]));
        }
        i += 1;
    }
    assert(text::texts(all@).take(i as int) =~= text::texts(all@));
    out
}

/// Normalise a card path from a request: absolute, no `..` or empty segments, no
/// control characters or characters FAT cannot store; a bare file name goes to `/Books`.
/// Paths under `/.quire` (the cache) are refused.
pub fn sanitize_path(p: &str) -> (r: Option<String>)
    ensures
        r is Some <==> sanitized(p@) is Some,
        r matches Some(out) ==> sanitized(p@) == Some(out@),
{
    let t = text::trim(p);
    if t.as_str().is_empty() || text::byte_len(&t) > 255 {
        return None;
    }
    let segs = split_path(&t);
    let ghost names = segments(t@);
    if segs.len() == 0 {
        return None;
    }
    let mut out = String::new();
    if segs.len() == 1 && t.as_str().get_char(0) != '/' {
        out.append(BOOKS_DIR);
    }
    let ghost base = out@;
    assert(base =~= (if names.len() == 1 && t@[0] != '/' { BOOKS_DIR@ } else { Seq::empty() }));
    let mut i: usize = 0;
    assert(base =~= base + joined(names.take(0)));
    while i < segs.len()
        invariant
            i <= segs@.len(),
            names == text::texts(segs@),
            names == segments(text::trimmed(p@)),
            out@ == base + joined(names.take(i as int)),
            forall|j: int| 0 <= j < i ==> good_segment(#[trigger] names[j]),
        decreases segs@.len() - i,
    {
        assert(names[i as int] == segs@[i as int]@);
        if !name_is_good(&segs[i]) {
            return None;
        }
        assert(names.take(i + 1).drop_last() =~= names.take(i as int));
        out.push('/');
        out.append(&segs[i]);
        assert(out@ =~= base + joined(names.take(i + 1)));
        i += 1;
    }
    assert(names.take(i as int) =~= names);
    if same(&out, "/.quire") || text::starts_with(&out, "/.quire/") {
        return None;
    }
    Some(out)
}

/// Whether a method reads: `GET` or `HEAD`, in any case of letters.
pub open spec fn reads(m: Seq<char>) -> bool {
    m == "GET"@ || m == "HEAD"@
}

/// `route` if it may be had, a refusal of the method if not.
pub open spec fn allowed(ok: bool, route: RouteView) -> RouteView {
    if ok {
        route
    } else {
        RouteView::MethodNotAllowed
    }
}

/// The paths iOS and macOS probe, answered with the page they are looking for.
///
/// Anything else, such as the redirect to the portal that the other probes get, tells them
/// the network is behind a sign-in, and once that sheet is closed they treat a network with
/// no route to the internet as a bad one and leave for a better one, mid-transfer.
pub open spec fn apple_probe(path: Seq<char>) -> bool {
    path == "/hotspot-detect.html"@ || path == "/library/test/success.html"@
}

/// Paths the other OSes probe to detect a captive portal.
pub open spec fn portal_probe(path: Seq<char>) -> bool {
    path == "/generate_204"@ || path == "/gen_204"@ || path == "/connecttest.txt"@ || path == "/ncsi.txt"@ || path
        == "/redirect"@ || path == "/success.txt"@ || path == "/canonical.html"@ || path
        == "/check_network_status.txt"@ || path == "/mobile/status.php"@
}

/// Where a request for `/api/files/<rest>` goes.
pub open spec fn routed_file(m: Seq<char>, rest: Seq<char>) -> RouteView {
    let decoded = percent_decoded(rest);
    if m == "POST"@ {
        match text::before(decoded, "/rename"@) {
            Some(p) => match sanitized(p) {
                Some(p) => RouteView::FileRename(p),
                None => RouteView::NotFound,
            },
            None => RouteView::MethodNotAllowed,
        }
    } else {
        match sanitized(decoded) {
            None => RouteView::NotFound,
            Some(p) => if reads(m) {
                RouteView::FileGet(p)
            } else if m == "PUT"@ {
                RouteView::FilePut(p)
            } else if m == "DELETE"@ {
                RouteView::FileDelete(p)
            } else {
                RouteView::MethodNotAllowed
            },
        }
    }
}

/// Where a request goes, by its method in upper case and its path.
pub open spec fn routed(m: Seq<char>, path: Seq<char>) -> RouteView {
    if path == "/"@ || path == "/index.html"@ || path == "/type"@ {
        allowed(reads(m), RouteView::Index)
    } else if path == "/captive"@ {
        allowed(reads(m), RouteView::Captive)
    } else if path == "/manifest.webmanifest"@ {
        allowed(reads(m), RouteView::Manifest)
    } else if path == "/sw.js"@ {
        allowed(reads(m), RouteView::ServiceWorker)
    } else if path == "/icon.svg"@ {
        allowed(reads(m), RouteView::Icon)
    } else if path == "/ws"@ {
        allowed(reads(m), RouteView::Ws)
    } else if path == "/upload"@ {
        allowed(m == "POST"@, RouteView::Upload)
    } else if path == "/sleep"@ {
        allowed(m == "POST"@, RouteView::Sleep)
    } else if path == "/api/status"@ {
        allowed(reads(m), RouteView::Status)
    } else if path == "/api/library"@ {
        allowed(reads(m), RouteView::Library)
    } else if path == "/api/stats"@ {
        allowed(reads(m), RouteView::Stats)
    } else if path == "/api/screen.pbm"@ {
        allowed(reads(m), RouteView::Screen)
    } else if path == "/api/fetch"@ {
        allowed(m == "POST"@, RouteView::Fetch)
    } else if path == "/api/settings"@ {
        if reads(m) {
            RouteView::SettingsGet
        } else {
            allowed(m == "PUT"@ || m == "POST"@ || m == "PATCH"@, RouteView::SettingsPut)
        }
    } else if text::after(path, "/api/files/"@) is Some {
        routed_file(m, text::after(path, "/api/files/"@)->0)
    } else if apple_probe(path) {
        allowed(reads(m), RouteView::AppleProbe)
    } else if portal_probe(path) {
        RouteView::CaptiveProbe
    } else {
        RouteView::NotFound
    }
}

fn allow(ok: bool, route: Route) -> (r: Route)
    ensures
        r@ == allowed(ok, route@),
{
    if ok {
        route
    } else {
        Route::MethodNotAllowed
    }
}

fn route_file(m: &str, rest: &str) -> (r: Route)
    ensures
        r@ == routed_file(m@, rest@),
{
    let decoded = percent_decode(rest);
    if same(m, "POST") {
        return match text::strip_suffix(&decoded, "/rename") {
            Some(p) => match sanitize_path(&p) {
                Some(p) => Route::FileRename(p),
                None => Route::NotFound,
            },
            None => Route::MethodNotAllowed,
        };
    }
    let p = match sanitize_path(&decoded) {
        Some(p) => p,
        None => return Route::NotFound,
    };
    if same(m, "GET") || same(m, "HEAD") {
        Route::FileGet(p)
    } else if same(m, "PUT") {
        Route::FilePut(p)
    } else if same(m, "DELETE") {
        Route::FileDelete(p)
    } else {
        Route::MethodNotAllowed
    }
}

/// Route `method` + `path` (the path as sent, percent-encoded, without the query).
pub fn route(method: &str, path: &str) -> (r: Route)
    ensures
        r@ == dispatched(method@, path@),
        r@ == routed(text::ascii_upper(method@), path@),
{
    let m = text::to_ascii_upper(method);
    let get = same(&m, "GET") || same(&m, "HEAD");
    let post = same(&m, "POST");
    if same(path, "/") || same(path, "/index.html") || same(path, "/type") {
        return allow(get, Route::Index);
    }
    if same(path, "/captive") {
        return allow(get, Route::Captive);
    }
    if same(path, "/manifest.webmanifest") {
        return allow(get, Route::Manifest);
    }
    if same(path, "/sw.js") {
        return allow(get, Route::ServiceWorker);
    }
    if same(path, "/icon.svg") {
        return allow(get, Route::Icon);
    }
    if same(path, "/ws") {
        return allow(get, Route::Ws);
    }
    if same(path, "/upload") {
        return allow(post, Route::Upload);
    }
    if same(path, "/sleep") {
        return allow(post, Route::Sleep);
    }
    if same(path, "/api/status") {
        return allow(get, Route::Status);
    }
    if same(path, "/api/library") {
        return allow(get, Route::Library);
    }
    if same(path, "/api/stats") {
        return allow(get, Route::Stats);
    }
    if same(path, "/api/screen.pbm") {
        return allow(get, Route::Screen);
    }
    if same(path, "/api/fetch") {
        return allow(post, Route::Fetch);
    }
    if same(path, "/api/settings") {
        if get {
            return Route::SettingsGet;
        }
        return allow(same(&m, "PUT") || post || same(&m, "PATCH"), Route::SettingsPut);
    }
    if let Some(rest) = text::strip_prefix(path, "/api/files/") {
        return route_file(&m, &rest);
    }
    if same(path, "/hotspot-detect.html") || same(path, "/library/test/success.html") {
        return allow(get, Route::AppleProbe);
    }
    if same(path, "/generate_204") || same(path, "/gen_204") || same(path, "/connecttest.txt")
        || same(path, "/ncsi.txt") || same(path, "/redirect") || same(path, "/success.txt")
        || same(path, "/canonical.html") || same(path, "/check_network_status.txt")
        || same(path, "/mobile/status.php") {
        return Route::CaptiveProbe;
    }
    Route::NotFound
}

/// The name in front of the `=` of a query's pair; the whole pair where there is none.
pub open spec fn pair_name(pair: Seq<char>) -> Seq<char> {
    pair.take(text::first_at(pair, '='))
}

/// The value behind the `=` of a query's pair; empty where there is none.
pub open spec fn pair_value(pair: Seq<char>) -> Seq<char> {
    let at = text::first_at(pair, '=');
    if at < pair.len() {
        pair.skip(at + 1)
    } else {
        Seq::empty()
    }
}

/// A text with a space for every `+`.
pub open spec fn plus_to_space(s: Seq<char>) -> Seq<char> {
    s.map_values(|c: char| if c == '+' { ' ' } else { c })
}

/// The decoded value of the first pair called `name`.
pub open spec fn first_param(pairs: Seq<Seq<char>>, name: Seq<char>) -> Option<Seq<char>>
    decreases pairs.len(),
{
    if pairs.len() == 0 {
        None
    } else if pair_name(pairs[0]) == name {
        Some(percent_decoded(plus_to_space(pair_value(pairs[0]))))
    } else {
        first_param(pairs.skip(1), name)
    }
}

/// The value of `name` in a query string, percent-decoded.
pub fn query_param(query: Option<&str>, name: &str) -> (r: Option<String>)
    ensures
        query is None ==> r is None,
        query matches Some(q) ==> (r is Some <==> first_param(text::pieces(q@, '&'), name@) is Some),
        query matches Some(q) ==> (r matches Some(v) ==> first_param(text::pieces(q@, '&'), name@) == Some(v@)),
{
    let q = match query {
        Some(q) => q,
        None => return None,
    };
    let pairs = text::split(q, '&');
    let ghost ps = text::texts(pairs@);
    let mut i: usize = 0;
    assert(ps.skip(0) =~= ps);
    while i < pairs.len()
        invariant
            i <= pairs@.len(),
            ps == text::texts(pairs@),
            query == Some(q),
            ps == text::pieces(q@, '&'),
            first_param(ps, name@) == first_param(ps.skip(i as int), name@),
        decreases pairs@.len() - i,
    {
        let v = text::chars_of(&pairs[i]);
        assert(v@ == ps[i as int]);
        let at = text::find_char(&v, '=');
        let k = text::text_of(&v, 0, at);
        assert(k@ =~= pair_name(v@));
        if same(&k, name) {
            let mut value = String::new();
            if at < v.len() {
                let mut j: usize = at + 1;
                assert(value@ =~= plus_to_space(v@.subrange(at + 1, j as int)));
                while j < v.len()
                    invariant
                        at < j <= v@.len(),
                        value@ == plus_to_space(v@.subrange(at + 1, j as int)),
                    decreases v@.len() - j,
                {
                    value.push(if v[j] == '+' { ' ' } else { v[j] });
                    assert(value@ =~= plus_to_space(v@.subrange(at + 1, j + 1)));
                    j += 1;
                }
                assert(v@.subrange(at + 1, j as int) =~= v@.skip(at + 1));
            } else {
                assert(value@ =~= plus_to_space(pair_value(v@)));
            }
            return Some(percent_decode(&value));
        }
        assert(ps.skip(i as int).skip(1) =~= ps.skip(i + 1));
        i += 1;
    }
    None
}

proof fn lemma_nonempty_push(ps: Seq<Seq<char>>, p: Seq<char>)
    requires
        p.len() > 0,
    ensures
        nonempty(ps.push(p)) == nonempty(ps).push(p),
{
    assert(ps.push(p).drop_last() =~= ps);
}

proof fn lemma_nonempty_from(ps: Seq<Seq<char>>, i: int)
    requires
        0 <= i < nonempty(ps).len(),
    ensures
        nonempty(ps)[i].len() > 0,
        ps.contains(nonempty(ps)[i]),
    decreases ps.len(),
{
    let rest = nonempty(ps.drop_last());
    if i < rest.len() {
        lemma_nonempty_from(ps.drop_last(), i);
        let k = choose|k: int| 0 <= k < ps.drop_last().len() && ps.drop_last()[k] == rest[i];
        assert(ps[k] == rest[i]);
    } else {
        assert(ps[ps.len() - 1] == ps.last());
    }
}

/// Every name of a path holds something, and no slash.
pub proof fn law_segments_are_names(p: Seq<char>, i: int)
    requires
        0 <= i < segments(p).len(),
    ensures
        segments(p)[i].len() > 0,
        !segments(p)[i].contains('/'),
{
    let ps = text::pieces(p, '/');
    lemma_nonempty_from(ps, i);
    let k = choose|k: int| 0 <= k < ps.len() && ps[k] == segments(p)[i];
    text::lemma_pieces_hold_no_separator(p, '/', k);
}

/// Joining names and parting the path again gives the names back.
pub proof fn law_joined_parts_again(segs: Seq<Seq<char>>)
    requires
        forall|i: int| 0 <= i < segs.len() ==> (#[trigger] segs[i]).len() > 0 && !segs[i].contains('/'),
    ensures
        segments(joined(segs)) == segs,
    decreases segs.len(),
{
    reveal_with_fuel(nonempty, 2);
    if segs.len() > 0 {
        let a = joined(segs.drop_last());
        let b = segs.last();
        law_joined_parts_again(segs.drop_last());
        assert(segs[segs.len() - 1] == b);
        text::lemma_pieces_join(a, '/', b);
        lemma_nonempty_push(text::pieces(a, '/'), b);
        assert(segs.drop_last().push(b) =~= segs);
    } else {
        assert(joined(segs) =~= Seq::empty());
        assert(seq![Seq::<char>::empty()].drop_last() =~= Seq::empty());
        assert(segments(joined(segs)) =~= segs);
    }
}

proof fn lemma_joined_prefix(a: Seq<Seq<char>>, b: Seq<Seq<char>>)
    ensures
        joined(a + b) == joined(a) + joined(b),
    decreases b.len(),
{
    if b.len() == 0 {
        assert(a + b =~= a);
        assert(joined(a) + joined(b) =~= joined(a));
    } else {
        lemma_joined_prefix(a, b.drop_last());
        assert((a + b).drop_last() =~= a + b.drop_last());
        assert(joined(a).push('/') + (joined(b.drop_last()).push('/') + b.last()) =~= joined(a).push('/')
            + joined(b.drop_last()).push('/') + b.last());
        assert((joined(a) + joined(b.drop_last())).push('/') + b.last() =~= joined(a) + (joined(b.drop_last()).push('/')
            + b.last()));
    }
}

/// The names of a sanitised path: those of the request, below `/Books` for a bare name.
proof fn lemma_sanitized_names(p: Seq<char>) -> (names: Seq<Seq<char>>)
    requires
        sanitized(p) is Some,
    ensures
        names.len() > 0,
        sanitized(p)->0 == joined(names),
        forall|i: int| 0 <= i < names.len() ==> good_segment(#[trigger] names[i]) && !names[i].contains('/'),
{
    let t = text::trimmed(p);
    let segs = segments(t);
    assert forall|i: int| 0 <= i < segs.len() implies !(#[trigger] segs[i]).contains('/') by {
        law_segments_are_names(t, i);
    }
    if segs.len() == 1 && t[0] != '/' {
        let books = seq!["Books"@];
        reveal_strlit("Books");
        reveal_strlit("/Books");
        reveal_with_fuel(joined, 2);
        assert(books.drop_last() =~= Seq::empty());
        assert(joined(books) =~= BOOKS_DIR@);
        lemma_joined_prefix(books, segs);
        let names = books + segs;
        assert forall|i: int| 0 <= i < names.len() implies good_segment(#[trigger] names[i]) && !names[i].contains('/') by {
            if i > 0 {
                assert(names[i] == segs[i - 1]);
            }
        }
        names
    } else {
        assert(Seq::<char>::empty() + joined(segs) =~= joined(segs));
        segs
    }
}

/// A sanitised path is absolute, made of good names only, and never the cache.
pub proof fn law_sanitized_is_safe(p: Seq<char>)
    requires
        sanitized(p) is Some,
    ensures
        (sanitized(p)->0).len() > 0,
        (sanitized(p)->0)[0] == '/',
        sanitized(p)->0 == joined(segments(sanitized(p)->0)),
        forall|i: int|
            0 <= i < segments(sanitized(p)->0).len() ==> good_segment(#[trigger] segments(sanitized(p)->0)[i]),
        !in_cache(sanitized(p)->0),
{
    let names = lemma_sanitized_names(p);
    law_joined_parts_again(names);
    assert(names.take(1) + names.skip(1) =~= names);
    lemma_joined_prefix(names.take(1), names.skip(1));
    reveal_with_fuel(joined, 2);
    assert(joined(names.take(1))[0] == '/');
}

/// Sanitising again changes nothing: a path that came out of it and still fits (it has no
/// white space at its end and is not too long) goes through as it is.
pub proof fn law_sanitizing_twice(p: Seq<char>)
    requires
        sanitized(p) is Some,
        text::trimmed(sanitized(p)->0) == sanitized(p)->0,
        text::utf8_len(sanitized(p)->0) <= 255,
    ensures
        sanitized(sanitized(p)->0) == sanitized(p),
{
    let out = sanitized(p)->0;
    law_sanitized_is_safe(p);
    assert(Seq::<char>::empty() + joined(segments(out)) =~= out);
    reveal_with_fuel(nonempty, 2);
    let names = lemma_sanitized_names(p);
    law_joined_parts_again(names);
}

/// A request that reads never gets a route that writes.
pub proof fn law_reading_never_writes(m: Seq<char>, path: Seq<char>)
    requires
        reads(m),
    ensures
        !routed(m, path).writes(),
{
    reveal_strlit("GET");
    reveal_strlit("HEAD");
    reveal_strlit("PUT");
    reveal_strlit("POST");
    reveal_strlit("PATCH");
    reveal_strlit("DELETE");
    assert(m.len() == 3 || m.len() == 4);
    assert("PUT"@[0] == 'P' && "POST"@[0] == 'P' && "PATCH"@[0] == 'P');
    assert("GET"@[0] == 'G' && "HEAD"@[0] == 'H' && "DELETE"@[0] == 'D');
}

/// `HEAD` is routed as `GET` is.
pub proof fn law_head_is_get(path: Seq<char>)
    ensures
        routed("HEAD"@, path) == routed("GET"@, path),
{
    reveal_strlit("GET");
    reveal_strlit("HEAD");
    reveal_strlit("POST");
    reveal_strlit("PUT");
    reveal_strlit("PATCH");
    assert("POST"@[0] == 'P' && "PUT"@[0] == 'P' && "PATCH"@[0] == 'P');
    assert("GET"@[0] == 'G' && "HEAD"@[0] == 'H');
}

/// The path that a route carries is a sanitised one.
pub proof fn law_routed_paths_are_safe(m: Seq<char>, path: Seq<char>)
    ensures
        match routed(m, path) {
            RouteView::FileGet(p) | RouteView::FilePut(p) | RouteView::FileDelete(p) | RouteView::FileRename(p) =>
                exists|q: Seq<char>| sanitized(q) == Some(p),
            _ => true,
        },
{
}

/// Whether `e` is an escaped form of the bytes `b`: each byte stands as it is or as its `%XX` escape, a percent
/// sign always as an escape.
pub open spec fn is_escaped_form(e: Seq<u8>, b: Seq<u8>) -> bool
    decreases b.len(),
{
    if b.len() == 0 {
        e.len() == 0
    } else {
        ||| e.len() > 0 && e[0] == b[0] && b[0] != 0x25 && is_escaped_form(e.skip(1), b.skip(1))
        ||| is_escape(e) && 16 * hex_value(e[1])->0 + hex_value(e[2])->0 == b[0] && is_escaped_form(e.skip(3), b.skip(1))
    }
}

proof fn lemma_unescaping(e: Seq<u8>, b: Seq<u8>)
    requires
        is_escaped_form(e, b),
    ensures
        unescaped(e) == b,
    decreases b.len(),
{
    if b.len() > 0 {
        assert(b =~= seq![b[0]] + b.skip(1));
        if e.len() > 0 && e[0] == b[0] && b[0] != 0x25 && is_escaped_form(e.skip(1), b.skip(1)) {
            lemma_unescaping(e.skip(1), b.skip(1));
        } else {
            lemma_unescaping(e.skip(3), b.skip(1));
        }
    }
}

/// Decoding undoes escaping, whichever characters were escaped: an escaped form of a text decodes to that text.
pub proof fn law_decoding_undoes_escaping(s: Seq<char>, t: Seq<char>)
    requires
        is_escaped_form(encode_utf8(s), encode_utf8(t)),
    ensures
        percent_decoded(s) == t,
{
    broadcast use vstd::utf8::encode_utf8_valid_utf8;
    broadcast use vstd::utf8::encode_utf8_decode_utf8;
    lemma_unescaping(encode_utf8(s), encode_utf8(t));
}

proof fn lemma_scalar_without_percent(c: u32)
    by (bit_vector)
    requires
        c != 0x25,
    ensures
        c <= 0x7f ==> (c & 0x7f) as u8 != 0x25,
        0xC0u8 | ((c >> 6) & 0x1F) as u8 != 0x25,
        0xE0u8 | ((c >> 12) & 0x0F) as u8 != 0x25,
        0xF0u8 | ((c >> 18) & 0x7) as u8 != 0x25,
        0x80u8 | (c & 0x3F) as u8 != 0x25,
        0x80u8 | ((c >> 6) & 0x3F) as u8 != 0x25,
        0x80u8 | ((c >> 12) & 0x3F) as u8 != 0x25,
{
}

proof fn lemma_no_percent(s: Seq<char>)
    requires
        !s.contains('%'),
    ensures
        forall|i: int| 0 <= i < encode_utf8(s).len() ==> #[trigger] encode_utf8(s)[i] != 0x25,
    decreases s.len(),
{
    if s.len() > 0 {
        assert(s[0] != '%');
        vstd::utf8::char_u32_cast(s[0], s[0] as u32);
        lemma_scalar_without_percent(s[0] as u32);
        assert forall|i: int| 0 <= i < s.drop_first().len() implies #[trigger] s.drop_first()[i] != '%' by {
            assert(s[i + 1] != '%');
        }
        lemma_no_percent(s.drop_first());
        let first = vstd::utf8::encode_scalar(s[0] as u32);
        let rest = encode_utf8(s.drop_first());
        assert forall|i: int| 0 <= i < encode_utf8(s).len() implies #[trigger] encode_utf8(s)[i] != 0x25 by {
            if i < first.len() {
                assert(encode_utf8(s)[i] == first[i]);
            } else {
                assert(encode_utf8(s)[i] == rest[i - first.len()]);
            }
        }
    }
}

proof fn lemma_plain_bytes(b: Seq<u8>)
    requires
        forall|i: int| 0 <= i < b.len() ==> #[trigger] b[i] != 0x25,
    ensures
        is_escaped_form(b, b),
    decreases b.len(),
{
    if b.len() > 0 {
        assert(b[0] != 0x25);
        lemma_plain_bytes(b.skip(1));
    }
}

/// A text without a percent sign decodes to itself.
pub proof fn law_plain_text_stays(s: Seq<char>)
    requires
        !s.contains('%'),
    ensures
        percent_decoded(s) == s,
{
    lemma_no_percent(s);
    lemma_plain_bytes(encode_utf8(s));
    law_decoding_undoes_escaping(s, s);
}

/// What tells the fixed paths apart: their lengths, and the characters where they are as long as each other.
proof fn lemma_paths()
    ensures
        "/"@.len() == 1,
        "/index.html"@.len() == 11 && "/index.html"@[1] == 'i' && "/index.html"@[2] == 'n',
        "/type"@.len() == 5 && "/type"@[1] == 't' && "/type"@[2] == 'y',
        "/captive"@.len() == 8 && "/captive"@[1] == 'c' && "/captive"@[2] == 'a',
        "/manifest.webmanifest"@.len() == 21 && "/manifest.webmanifest"@[1] == 'm' && "/manifest.webmanifest"@[2] == 'a',
        "/sw.js"@.len() == 6 && "/sw.js"@[1] == 's' && "/sw.js"@[2] == 'w',
        "/icon.svg"@.len() == 9 && "/icon.svg"@[1] == 'i' && "/icon.svg"@[2] == 'c',
        "/ws"@.len() == 3 && "/ws"@[1] == 'w' && "/ws"@[2] == 's',
        "/upload"@.len() == 7 && "/upload"@[1] == 'u' && "/upload"@[2] == 'p',
        "/sleep"@.len() == 6 && "/sleep"@[1] == 's' && "/sleep"@[2] == 'l',
        "/api/status"@.len() == 11 && "/api/status"@[1] == 'a' && "/api/status"@[5] == 's' && "/api/status"@[6] == 't',
        "/api/library"@.len() == 12 && "/api/library"@[1] == 'a' && "/api/library"@[5] == 'l' && "/api/library"@[6] == 'i',
        "/api/stats"@.len() == 10 && "/api/stats"@[1] == 'a' && "/api/stats"@[5] == 's' && "/api/stats"@[6] == 't',
        "/api/screen.pbm"@.len() == 15 && "/api/screen.pbm"@[1] == 'a' && "/api/screen.pbm"@[5] == 's' && "/api/screen.pbm"@[6] == 'c',
        "/api/fetch"@.len() == 10 && "/api/fetch"@[1] == 'a' && "/api/fetch"@[5] == 'f' && "/api/fetch"@[6] == 'e',
        "/api/settings"@.len() == 13 && "/api/settings"@[1] == 'a' && "/api/settings"@[5] == 's' && "/api/settings"@[6] == 'e',
        "/hotspot-detect.html"@.len() == 20 && "/hotspot-detect.html"@[1] == 'h' && "/hotspot-detect.html"@[2] == 'o',
        "/library/test/success.html"@.len() == 26 && "/library/test/success.html"@[1] == 'l' && "/library/test/success.html"@[2] == 'i',
        "/generate_204"@.len() == 13 && "/generate_204"@[1] == 'g' && "/generate_204"@[2] == 'e',
        "/gen_204"@.len() == 8 && "/gen_204"@[1] == 'g' && "/gen_204"@[2] == 'e',
        "/connecttest.txt"@.len() == 16 && "/connecttest.txt"@[1] == 'c' && "/connecttest.txt"@[2] == 'o',
        "/ncsi.txt"@.len() == 9 && "/ncsi.txt"@[1] == 'n' && "/ncsi.txt"@[2] == 'c',
        "/redirect"@.len() == 9 && "/redirect"@[1] == 'r' && "/redirect"@[2] == 'e',
        "/success.txt"@.len() == 12 && "/success.txt"@[1] == 's' && "/success.txt"@[2] == 'u',
        "/canonical.html"@.len() == 15 && "/canonical.html"@[1] == 'c' && "/canonical.html"@[2] == 'a',
        "/check_network_status.txt"@.len() == 25 && "/check_network_status.txt"@[1] == 'c' && "/check_network_status.txt"@[2] == 'h',
        "/mobile/status.php"@.len() == 18 && "/mobile/status.php"@[1] == 'm' && "/mobile/status.php"@[2] == 'o',
        "/api/files/"@.len() == 11 && "/api/files/"@[1] == 'a' && "/api/files/"@[5] == 'f' && "/api/files/"@[6] == 'i',
{
    reveal_strlit("/");
    reveal_strlit("/index.html");
    reveal_strlit("/type");
    reveal_strlit("/captive");
    reveal_strlit("/manifest.webmanifest");
    reveal_strlit("/sw.js");
    reveal_strlit("/icon.svg");
    reveal_strlit("/ws");
    reveal_strlit("/upload");
    reveal_strlit("/sleep");
    reveal_strlit("/api/status");
    reveal_strlit("/api/library");
    reveal_strlit("/api/stats");
    reveal_strlit("/api/screen.pbm");
    reveal_strlit("/api/fetch");
    reveal_strlit("/api/settings");
    reveal_strlit("/hotspot-detect.html");
    reveal_strlit("/library/test/success.html");
    reveal_strlit("/generate_204");
    reveal_strlit("/gen_204");
    reveal_strlit("/connecttest.txt");
    reveal_strlit("/ncsi.txt");
    reveal_strlit("/redirect");
    reveal_strlit("/success.txt");
    reveal_strlit("/canonical.html");
    reveal_strlit("/check_network_status.txt");
    reveal_strlit("/mobile/status.php");
    reveal_strlit("/api/files/");
}

/// The methods are told apart by their lengths and first characters.
proof fn lemma_methods()
    ensures
        "GET"@.len() == 3 && "GET"@[0] == 'G',
        "HEAD"@.len() == 4 && "HEAD"@[0] == 'H',
        "PUT"@.len() == 3 && "PUT"@[0] == 'P',
        "POST"@.len() == 4 && "POST"@[0] == 'P',
        "PATCH"@.len() == 5 && "PATCH"@[0] == 'P',
        "DELETE"@.len() == 6 && "DELETE"@[0] == 'D',
{
    reveal_strlit("GET");
    reveal_strlit("HEAD");
    reveal_strlit("PUT");
    reveal_strlit("POST");
    reveal_strlit("PATCH");
    reveal_strlit("DELETE");
}

/// A request for a file goes to that file: its path, escaped or not, stands behind `/api/files/`, and the method says
/// whether the file is read, stored or deleted.
pub proof fn law_file_requests_name_their_file(rest: Seq<char>, p: Seq<char>)
    requires
        sanitized(percent_decoded(rest)) == Some(p),
    ensures
        routed("GET"@, "/api/files/"@ + rest) == RouteView::FileGet(p),
        routed("HEAD"@, "/api/files/"@ + rest) == RouteView::FileGet(p),
        routed("PUT"@, "/api/files/"@ + rest) == RouteView::FilePut(p),
        routed("DELETE"@, "/api/files/"@ + rest) == RouteView::FileDelete(p),
{
    lemma_methods();
    lemma_file_paths(rest);
}

/// A request to rename a file goes to that file: the word stands behind its path.
pub proof fn law_rename_requests_name_their_file(rest: Seq<char>, q: Seq<char>, p: Seq<char>)
    requires
        percent_decoded(rest) == q + "/rename"@,
        sanitized(q) == Some(p),
    ensures
        routed("POST"@, "/api/files/"@ + rest) == RouteView::FileRename(p),
{
    lemma_methods();
    lemma_file_paths(rest);
    let d = percent_decoded(rest);
    assert(d.take(d.len() - "/rename"@.len()) =~= q);
    assert(d.skip(q.len() as int) =~= "/rename"@);
}

proof fn lemma_file_paths(rest: Seq<char>)
    ensures
        ({
            let path = "/api/files/"@ + rest;
            &&& forall|m: Seq<char>| #[trigger] routed(m, path) == routed_file(m, rest)
        }),
{
    lemma_paths();
    let path = "/api/files/"@ + rest;
    assert(path[1] == 'a' && path[5] == 'f' && path[6] == 'i');
    assert(path.skip("/api/files/"@.len() as int) =~= rest);
    assert("/api/files/"@.is_prefix_of(path)) by {
        assert(path.subrange(0, "/api/files/"@.len() as int) =~= "/api/files/"@);
    }
}

/// What a request is routed to tells its method: only `DELETE` deletes, only `PUT` stores a file, only `POST` renames,
/// uploads, stores a sleep image or asks for a download, and a file is sent for a method that reads.
pub proof fn law_method_stands_behind_the_route(m: Seq<char>, path: Seq<char>)
    ensures
        routed(m, path) is FileDelete ==> m == "DELETE"@,
        routed(m, path) is FilePut ==> m == "PUT"@,
        routed(m, path) is FileRename ==> m == "POST"@,
        routed(m, path) is Upload ==> m == "POST"@ && path == "/upload"@,
        routed(m, path) is Sleep ==> m == "POST"@ && path == "/sleep"@,
        routed(m, path) is Fetch ==> m == "POST"@ && path == "/api/fetch"@,
        routed(m, path) is SettingsPut ==> path == "/api/settings"@ && (m == "PUT"@ || m == "POST"@ || m == "PATCH"@),
        routed(m, path) is FileGet ==> m == "GET"@ || m == "HEAD"@,
        routed(m, path) is FileGet || routed(m, path) is FilePut || routed(m, path) is FileDelete || routed(m, path) is FileRename
            ==> "/api/files/"@.is_prefix_of(path),
{
}

/// A request that does not read either writes, or gets nothing: it is refused, or it is a probe that is sent on.
pub proof fn law_other_methods_write_or_get_nothing(m: Seq<char>, path: Seq<char>)
    requires
        m != "GET"@,
        m != "HEAD"@,
    ensures
        routed(m, path).writes() || routed(m, path) is NotFound || routed(m, path) is MethodNotAllowed || routed(m, path) is CaptiveProbe,
{
}

/// Where each page and document is read: at its own paths and nowhere else.
#[verifier::rlimit(60)]
pub proof fn law_each_page_has_its_paths(m: Seq<char>, path: Seq<char>)
    requires
        m == "GET"@ || m == "HEAD"@,
    ensures
        routed(m, path) is Index <==> path == "/"@ || path == "/index.html"@ || path == "/type"@,
        routed(m, path) is Captive <==> path == "/captive"@,
        routed(m, path) is Manifest <==> path == "/manifest.webmanifest"@,
        routed(m, path) is ServiceWorker <==> path == "/sw.js"@,
        routed(m, path) is Icon <==> path == "/icon.svg"@,
        routed(m, path) is Ws <==> path == "/ws"@,
        routed(m, path) is Status <==> path == "/api/status"@,
        routed(m, path) is Library <==> path == "/api/library"@,
        routed(m, path) is Stats <==> path == "/api/stats"@,
        routed(m, path) is Screen <==> path == "/api/screen.pbm"@,
        routed(m, path) is SettingsGet <==> path == "/api/settings"@,
        routed(m, path) is MethodNotAllowed <==> path == "/upload"@ || path == "/sleep"@ || path == "/api/fetch"@,
        routed(m, path) is AppleProbe <==> path == "/hotspot-detect.html"@ || path == "/library/test/success.html"@,
{
    lemma_paths();
    lemma_methods();
}

/// What is written is written at its own path.
#[verifier::rlimit(60)]
pub proof fn law_each_writing_has_its_path(m: Seq<char>, path: Seq<char>)
    ensures
        m == "POST"@ ==> (routed(m, path) is Upload <==> path == "/upload"@),
        m == "POST"@ ==> (routed(m, path) is Sleep <==> path == "/sleep"@),
        m == "POST"@ ==> (routed(m, path) is Fetch <==> path == "/api/fetch"@),
        m == "PUT"@ || m == "POST"@ || m == "PATCH"@ ==> (routed(m, path) is SettingsPut <==> path == "/api/settings"@),
        routed(m, path) is CaptiveProbe <==> path == "/generate_204"@ || path == "/gen_204"@ || path == "/connecttest.txt"@
            || path == "/ncsi.txt"@ || path == "/redirect"@ || path == "/success.txt"@ || path == "/canonical.html"@ || path
            == "/check_network_status.txt"@ || path == "/mobile/status.php"@,
{
    lemma_paths();
    lemma_methods();
}

/// A hexadecimal digit stands for its place among the sixteen, in either case, and no other byte stands for one.
pub proof fn law_hex_digits(b: u8)
    ensures
        forall|n: int| 0 <= n < 10 ==> hex_value(#[trigger] (48 + n) as u8) == Some(n),
        forall|n: int| 0 <= n < 6 ==> hex_value(#[trigger] (97 + n) as u8) == Some(10 + n),
        forall|n: int| 0 <= n < 6 ==> hex_value(#[trigger] (65 + n) as u8) == Some(10 + n),
        hex_value(b) matches Some(v) ==> 0 <= v < 16 && (b == 48 + v || b == 87 + v || b == 55 + v),
{
}

proof fn lemma_joined_characters(names: Seq<Seq<char>>, i: int)
    requires
        forall|k: int| 0 <= k < names.len() ==> good_segment(#[trigger] names[k]),
        0 <= i < joined(names).len(),
    ensures
        joined(names)[i] == '/' || !forbidden(joined(names)[i]),
    decreases names.len(),
{
    let front = joined(names.drop_last());
    assert(names[names.len() - 1] == names.last());
    if i < front.len() {
        assert forall|k: int| 0 <= k < names.drop_last().len() implies good_segment(#[trigger] names.drop_last()[k]) by {
            assert(names[k] == names.drop_last()[k]);
        }
        lemma_joined_characters(names.drop_last(), i);
        assert(joined(names)[i] == front[i]);
    } else if i > front.len() {
        assert(joined(names)[i] == names.last()[i - front.len() - 1]);
    }
}

/// A path a request may name holds none of the characters that a card cannot store, none of its names is `.` or `..`
/// or ends in a dot or a space, and it is not the cache folder nor lies in it.
pub proof fn law_safe_paths_can_be_stored(p: Seq<char>, i: int, k: int)
    requires
        sanitized(p) is Some,
        0 <= i < (sanitized(p)->0).len(),
        0 <= k < segments(sanitized(p)->0).len(),
    ensures
        ({
            let c = (sanitized(p)->0)[i];
            let name = segments(sanitized(p)->0)[k];
            &&& c as u32 >= 0x20 && c as u32 != 0x7f
            &&& c != '\\' && c != ':' && c != '*' && c != '?' && c != '"' && c != '<' && c != '>' && c != '|'
            &&& name != "."@ && name != ".."@ && name.last() != '.' && name.last() != ' '
        }),
        sanitized(p)->0 != "/.quire"@,
        !"/.quire/"@.is_prefix_of(sanitized(p)->0),
{
    law_sanitized_is_safe(p);
    let q = sanitized(p)->0;
    lemma_joined_characters(segments(q), i);
    reveal_strlit(".");
    reveal_strlit("..");
    assert("."@.last() == '.' && ".."@.last() == '.');
    assert(good_segment(segments(q)[k]));
}

/// A path made of good names that is short enough and not in the cache is taken as it is.
pub proof fn law_good_paths_stay(names: Seq<Seq<char>>)
    requires
        names.len() > 0,
        forall|i: int| 0 <= i < names.len() ==> good_segment(#[trigger] names[i]) && !names[i].contains('/'),
        text::trimmed(joined(names)) == joined(names),
        text::utf8_len(joined(names)) <= 255,
        joined(names) != "/.quire"@,
        !"/.quire/"@.is_prefix_of(joined(names)),
    ensures
        sanitized(joined(names)) == Some(joined(names)),
{
    law_joined_parts_again(names);
    assert(names.take(1) + names.skip(1) =~= names);
    lemma_joined_prefix(names.take(1), names.skip(1));
    reveal_with_fuel(joined, 2);
    assert(joined(names.take(1))[0] == '/');
    assert(joined(names)[0] == '/');
    assert(Seq::<char>::empty() + joined(names) =~= joined(names));
}

proof fn lemma_one_piece(s: Seq<char>)
    requires
        !s.contains('/'),
    ensures
        text::pieces(s, '/') == seq![s],
    decreases s.len(),
{
    if s.len() > 0 {
        assert(s[s.len() - 1] == s.last());
        assert forall|i: int| 0 <= i < s.drop_last().len() implies s.drop_last()[i] != '/' by {
            assert(s[i] != '/');
        }
        lemma_one_piece(s.drop_last());
        assert(s.drop_last().push(s.last()) =~= s);
        assert(text::pieces(s, '/') =~= seq![s]);
    } else {
        assert(s =~= Seq::empty());
    }
}

/// A bare name that can be stored goes to the folder of books.
pub proof fn law_bare_names_go_to_the_books(name: Seq<char>)
    requires
        good_segment(name),
        !name.contains('/'),
        text::trimmed(name) == name,
        text::utf8_len(name) <= 255,
    ensures
        sanitized(name) == Some("/Books/"@ + name),
{
    lemma_one_piece(name);
    reveal_with_fuel(nonempty, 2);
    reveal_with_fuel(joined, 2);
    assert(seq![name].drop_last() =~= Seq::empty());
    assert(segments(name) =~= seq![name]);
    reveal_strlit("/Books");
    reveal_strlit("/Books/");
    reveal_strlit("/.quire");
    reveal_strlit("/.quire/");
    let out = BOOKS_DIR@ + joined(seq![name]);
    assert(out =~= "/Books/"@ + name);
    assert(out[1] == 'B' && "/.quire"@[1] == '.' && "/.quire/"@[1] == '.');
    assert(name[0] != '/');
}

/// A parameter of a query is found by its name, the first of that name where there are several, whatever stands before
/// and behind it; a plain value is read as it is, and a plus as a space.
pub proof fn law_parameters_are_read_by_name(
    before: Seq<Seq<char>>,
    name: Seq<char>,
    value: Seq<char>,
    after: Seq<Seq<char>>,
)
    requires
        !name.contains('='),
        forall|i: int| 0 <= i < before.len() ==> pair_name(#[trigger] before[i]) != name,
        !value.contains('%'),
    ensures
        !value.contains('+') ==> first_param(before.push(name.push('=') + value) + after, name) == Some(value),
        first_param(before.push(name.push('=') + value) + after, name) == Some(
            value.map_values(|c: char| if c == '+' { ' ' } else { c }),
        ),
        first_param(before, name) is None,
    decreases before.len(),
{
    let pair = name.push('=') + value;
    let all = before.push(pair) + after;
    if before.len() == 0 {
        text::law_first_stands_before(name, '=', value);
        assert(pair.take(name.len() as int) =~= name);
        assert(pair.skip(name.len() as int + 1) =~= value);
        assert(all[0] == pair);
        let spaced = plus_to_space(value);
        assert forall|i: int| 0 <= i < spaced.len() implies spaced[i] != '%' by {
            assert(value[i] != '%');
        }
        law_plain_text_stays(spaced);
        if !value.contains('+') {
            assert forall|i: int| 0 <= i < value.len() implies spaced[i] == value[i] by {
                assert(value[i] != '+');
            }
            assert(spaced =~= value);
        }
    } else {
        assert(all[0] == before[0]);
        assert(all.skip(1) =~= before.skip(1).push(pair) + after);
        assert forall|i: int| 0 <= i < before.skip(1).len() implies pair_name(#[trigger] before.skip(1)[i]) != name by {
            assert(before.skip(1)[i] == before[i + 1]);
        }
        law_parameters_are_read_by_name(before.skip(1), name, value, after);
    }
}

/// Where a request goes, by its method in any case of letters and its path.
pub open spec fn dispatched(method: Seq<char>, path: Seq<char>) -> RouteView {
    routed(text::ascii_upper(method), path)
}

/// The case of a method's letters does not matter: a method in small letters goes where it does in capitals.
pub proof fn law_methods_are_read_in_any_case(method: Seq<char>, other: Seq<char>, path: Seq<char>)
    requires
        method.len() == other.len(),
        forall|i: int|
            0 <= i < method.len() ==> text::ascii_lower_char(#[trigger] method[i]) == text::ascii_lower_char(other[i]),
    ensures
        dispatched(method, path) == dispatched(other, path),
        dispatched("GET"@, path) == routed("GET"@, path),
        dispatched("DELETE"@, path) == routed("DELETE"@, path),
        dispatched("PUT"@, path) == routed("PUT"@, path),
        dispatched("POST"@, path) == routed("POST"@, path),
{
    let (a, b) = (text::ascii_upper(method), text::ascii_upper(other));
    assert forall|i: int| 0 <= i < a.len() implies a[i] == b[i] by {
        text::law_letters_have_two_cases(method[i]);
        text::law_letters_have_two_cases(other[i]);
        assert(text::ascii_lower_char(method[i]) == text::ascii_lower_char(other[i]));
    }
    assert(a =~= b);
    reveal_strlit("GET");
    reveal_strlit("DELETE");
    reveal_strlit("PUT");
    reveal_strlit("POST");
    assert(text::ascii_upper("GET"@) =~= "GET"@);
    assert(text::ascii_upper("DELETE"@) =~= "DELETE"@);
    assert(text::ascii_upper("PUT"@) =~= "PUT"@);
    assert(text::ascii_upper("POST"@) =~= "POST"@);
}

} // verus!
