use quire::card::FsError;
use quire::http::{
    admits, body_refused, content_type_for, error, fetch, file_get, file_rename, fs_error, handle, no_screen, queued, rename_target,
    settings_merged, settings_put, settings_saved, Act, Asset, Document, FetchFields, FileSend, Resp, SettingsStep, Small, SmallBody, Status,
    MAX_JSON_BODY,
};
use quire::platform::{FetchRequest, WifiState};
use quire::routes::{route, Route, APPLE_SUCCESS};

fn bad(msg: &str) -> Resp<String, Vec<String>> {
    Resp::Error(Status::BadRequest, msg.into())
}

#[test]
fn statuses_have_their_numbers() {
    let all = [
        (Status::Okay, 200),
        (Status::Created, 201),
        (Status::NoContent, 204),
        (Status::Found, 302),
        (Status::SeeOther, 303),
        (Status::BadRequest, 400),
        (Status::Forbidden, 403),
        (Status::NotFound, 404),
        (Status::MethodNotAllowed, 405),
        (Status::Conflict, 409),
        (Status::PayloadTooLarge, 413),
        (Status::ServerError, 500),
        (Status::Unavailable, 503),
        (Status::InsufficientStorage, 507),
    ];
    for (s, n) in all {
        assert_eq!(s.code(), n);
    }
}

#[test]
fn card_errors_are_answered() {
    assert_eq!(fs_error(&FsError::Full), Resp::Error(Status::InsufficientStorage, "card full".into()));
    assert_eq!(fs_error(&FsError::NotFound), Resp::Error(Status::NotFound, "not found".into()));
    assert_eq!(fs_error(&FsError::InvalidPath), Resp::Error(Status::ServerError, "InvalidPath".into()));
    assert_eq!(fs_error(&FsError::Io("x".into())), Resp::Error(Status::ServerError, "Io(\"x\")".into()));
}

#[test]
fn answers_carry_their_headers() {
    let h = |r: &Resp<String, Vec<String>>| r.headers().iter().map(|h| format!("{}: {}", h.name, h.value)).collect::<Vec<_>>();
    assert_eq!(h(&bad("x")), ["Content-Type: application/json", "Cache-Control: no-store"]);
    assert_eq!(
        h(&Resp::Gz(Asset::Manifest)),
        ["Content-Type: application/manifest+json", "Content-Encoding: gzip", "Cache-Control: no-cache"]
    );
    assert_eq!(h(&Resp::Svg), ["Content-Type: image/svg+xml", "Cache-Control: max-age=86400"]);
    assert_eq!(h(&Resp::Redirect(Status::Found, "/x".into())), ["Location: /x", "Cache-Control: no-store"]);
    assert_eq!(
        h(&Resp::File("a.epub".into(), 3, "application/epub+zip")),
        ["Content-Type: application/epub+zip", "Content-Disposition: attachment; filename=\"a.epub\""]
    );
    assert!(h(&Resp::Empty(Status::NoContent)).is_empty());
    assert_eq!(bad("x").status(), Status::BadRequest);
    assert_eq!(Resp::<String, Vec<String>>::Svg.status(), Status::Okay);
}

#[test]
fn content_types() {
    for (ext, ct) in [
        ("kepub", "application/epub+zip"),
        ("log", "text/plain; charset=utf-8"),
        ("md", "text/markdown; charset=utf-8"),
        ("xhtml", "text/html; charset=utf-8"),
        ("opf", "application/xml"),
        ("cbz", "application/zip"),
        ("pbm", "image/x-portable-bitmap"),
        ("png", "image/png"),
        ("jpeg", "image/jpeg"),
        ("json", "application/json"),
        ("", "application/octet-stream"),
    ] {
        assert_eq!(content_type_for(ext), ct);
    }
}

#[test]
fn writes_need_the_pin() {
    let put = route("PUT", "/api/files/a.epub");
    assert!(admits(&put, "", false));
    assert!(!admits(&put, "1234", false));
    assert!(admits(&put, "1234", true));
    assert!(admits(&route("GET", "/api/files/a.epub"), "1234", false));
    let refused = handle(put, false, &WifiState::Off, "192.168.4.1");
    assert_eq!(refused, Act::Reply(Resp::Error(Status::Forbidden, "PIN required".into())));
    assert_eq!(handle(Route::Ws, false, &WifiState::Off, ""), Act::Upgrade);
}

#[test]
fn requests_go_to_their_handlers() {
    let off = WifiState::Off;
    let go = |m: &str, p: &str| handle(route(m, p), true, &off, "192.168.4.1");
    assert_eq!(go("GET", "/"), Act::Reply(Resp::Gz(Asset::Index)));
    assert_eq!(go("GET", "/captive"), Act::Captive("192.168.4.1".into()));
    assert_eq!(go("GET", "/generate_204"), Act::Reply(Resp::Redirect(Status::Found, "http://192.168.4.1/captive".into())));
    assert_eq!(go("GET", "/hotspot-detect.html"), Act::Reply(Resp::Html(APPLE_SUCCESS.into())));
    assert_eq!(go("GET", "/api/library"), Act::Document(Document::Library));
    assert_eq!(go("PUT", "/api/settings"), Act::Body(Small::Settings));
    assert_eq!(go("POST", "/api/files/a.txt/rename"), Act::Body(Small::Rename("/Books/a.txt".into())));
    assert_eq!(go("PUT", "/api/files/a.txt"), Act::FilePut("/Books/a.txt".into()));
    assert_eq!(go("GET", "/api/screen.pbm"), Act::Screen);
    assert_eq!(go("GET", "/nothing"), Act::Reply(Resp::Text(Status::NotFound, "Not found")));
    assert_eq!(go("POST", "/"), Act::Reply(Resp::Text(Status::MethodNotAllowed, "Method not allowed")));
    let joined = WifiState::Connected { ssid: "n".into(), ip: "10.0.0.2".into(), host: "quire".into(), signal: 3 };
    assert_eq!(handle(Route::Captive, true, &joined, "192.168.4.1"), Act::Captive("10.0.0.2".into()));
}

#[test]
fn small_bodies_are_bounded() {
    assert_eq!(SmallBody::new(MAX_JSON_BODY + 1, MAX_JSON_BODY), None);
    let mut b = SmallBody::new(10, MAX_JSON_BODY).unwrap();
    assert_eq!(b.want(), 10);
    b.read(4);
    assert_eq!(b.want(), 6);
    // The body ended: what came is all of it.
    b.read(0);
    assert_eq!((b.want(), b.got), (0, 4));
    assert_eq!(body_refused(&Small::Settings), Resp::Error(Status::PayloadTooLarge, "settings body too large".into()));
    assert_eq!(body_refused(&Small::Fetch), Resp::Error(Status::PayloadTooLarge, "body too large".into()));
}

#[test]
fn files_are_sent_in_pieces() {
    let mut f = FileSend::new(5000);
    assert_eq!(f.want(), Some((0, 4096)));
    assert!(f.read(4096));
    assert_eq!(f.want(), Some((4096, 904)));
    assert!(f.read(900));
    assert_eq!(f.want(), Some((4996, 4)));
    assert!(!f.read(0));
    assert_eq!(f.want(), None);
    assert_eq!(file_get("/Books/a.epub", "epub", Ok(7)), Resp::File("a.epub".into(), 7, "application/epub+zip"));
    assert_eq!(file_get("/x", "", Err(FsError::NotFound)), Resp::Error(Status::NotFound, "not found".into()));
}

#[test]
fn a_missing_frame_is_explained() {
    assert_eq!(no_screen(false), Resp::Error(Status::Unavailable, "busy".into()));
    assert_eq!(no_screen(true), Resp::Error(Status::Unavailable, "no frame".into()));
    assert_eq!(queued(), Resp::Text(Status::Okay, "queued"));
    assert_eq!(error(Status::Conflict, "x"), Resp::Error(Status::Conflict, "x".into()));
}

#[test]
fn renames_read_their_json() {
    assert_eq!(file_rename("/Books/a.txt", br#"{"to": "b.txt"}"#), Ok("/Books/b.txt".into()));
    assert_eq!(file_rename("/a.txt", br#"{"x": 1, "to": "caf\u00e9"}"#), Ok("/café".into()));
    let expected = Err(bad("expected {\"to\": name}"));
    assert_eq!(file_rename("/Books/a.txt", br#"{"to": 5}"#), expected);
    assert_eq!(file_rename("/Books/a.txt", b"not json"), expected);
    assert_eq!(file_rename("/Books/a.txt", b"\xff"), expected);
    assert_eq!(file_rename("/Books/a.txt", b"[\"to\"]"), expected);
}

#[test]
fn renames_stay_in_the_folder() {
    let to = |t: &str| rename_target("/Books/a.txt", Some(t.into()));
    assert_eq!(to("b.txt"), Ok("/Books/b.txt".into()));
    assert_eq!(to("a.txt"), Err(bad("bad name")));
    assert_eq!(to("sub/b.txt"), Err(bad("bad name")));
    assert_eq!(to(".."), Err(bad("bad name")));
    assert_eq!(rename_target("/a", Some(".quire".into())), Err(bad("bad name")));
    assert_eq!(rename_target("/a", None), Err(bad("expected {\"to\": name}")));
}

#[test]
fn downloads_are_asked_for() {
    let f = |url: &str, title: Option<&str>| {
        Some(FetchFields { url: Some(url.into()), title: title.map(String::from), author: Some("Eliot".into()) })
    };
    let book = |url: &str, title: &str| FetchRequest::Book { url: url.into(), title: title.into(), author: "Eliot".into(), size: None };
    assert_eq!(fetch(b"{}", f("http://x/y/z.epub?a=1", None)), Ok(book("http://x/y/z.epub?a=1", "z.epub")));
    assert_eq!(fetch(b"{}", f("https://x/", Some(""))), Ok(book("https://x/", "Download")));
    assert_eq!(fetch(b"{}", f("http://x/?q", None)), Ok(book("http://x/?q", "Download")));
    assert_eq!(fetch(b"{}", f("http://x/a", Some("T"))), Ok(book("http://x/a", "T")));
    assert_eq!(fetch(b"{}", f("ftp://x/a", None)), Err(bad("url must be http or https")));
    assert_eq!(fetch(b"{}", f(&format!("http://{}", "x".repeat(1018)), None)), Err(bad("url must be http or https")));
    assert!(fetch(b"{}", f(&format!("http://{}", "x".repeat(1017)), None)).is_ok());
    assert_eq!(fetch(b"{}", Some(FetchFields { url: None, title: None, author: None })), Err(bad("url must be http or https")));
    assert_eq!(fetch(b"{", None), Err(bad("not JSON")));
    assert_eq!(fetch(b"\xff", None), Err(bad("not UTF-8")));
}

#[test]
fn settings_are_merged_then_saved() {
    assert_eq!(settings_put(b"{}"), SettingsStep::Merge("{}".into()));
    assert_eq!(settings_put(b"\xc3"), SettingsStep::Reply(bad("not UTF-8")));
    assert_eq!(settings_merged(None), SettingsStep::Save);
    assert_eq!(settings_merged(Some("size".into())), SettingsStep::Reply(bad("size")));
    assert_eq!(settings_saved(Ok(()), Some("12".into())), SettingsStep::SavePin("12".into()));
    assert_eq!(settings_saved(Ok(()), None), SettingsStep::Tell);
    assert_eq!(settings_saved(Err(FsError::Full), None), SettingsStep::Reply(fs_error(&FsError::Full)));
}
