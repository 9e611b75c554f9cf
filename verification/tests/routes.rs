use quire::routes::{percent_decode, query_param, route, sanitize_path, Route, APPLE_SUCCESS};

#[test]
fn table() {
    assert_eq!(route("GET", "/"), Route::Index);
    assert_eq!(route("GET", "/type"), Route::Index);
    assert_eq!(route("HEAD", "/api/status"), Route::Status);
    assert_eq!(route("POST", "/"), Route::MethodNotAllowed);
    assert_eq!(route("GET", "/ws"), Route::Ws);
    assert_eq!(route("PUT", "/api/settings"), Route::SettingsPut);
    assert_eq!(route("POST", "/upload"), Route::Upload);
    assert_eq!(route("GET", "/upload"), Route::MethodNotAllowed);
    assert_eq!(route("GET", "/generate_204"), Route::CaptiveProbe);
    // Apple's two probes are answered rather than redirected, so that iOS and
    // macOS stay on a network that has nothing beyond the reader.
    assert_eq!(route("GET", "/hotspot-detect.html"), Route::AppleProbe);
    assert_eq!(route("GET", "/library/test/success.html"), Route::AppleProbe);
    assert_eq!(route("POST", "/hotspot-detect.html"), Route::MethodNotAllowed);
    // Byte for byte what they look for: anything else reads as a portal.
    assert!(APPLE_SUCCESS.contains("<TITLE>Success</TITLE>"));
    assert!(APPLE_SUCCESS.contains("<BODY>Success</BODY>"));
    assert_eq!(route("GET", "/nothing"), Route::NotFound);
    assert_eq!(route("POST", "/api/fetch"), Route::Fetch);
}

#[test]
fn files() {
    assert_eq!(route("PUT", "/api/files/Books/a%20b.epub"), Route::FilePut("/Books/a b.epub".into()));
    assert_eq!(route("PUT", "/api/files/a.epub"), Route::FilePut("/Books/a.epub".into()));
    assert_eq!(route("GET", "/api/files/Books/x.txt"), Route::FileGet("/Books/x.txt".into()));
    assert_eq!(route("DELETE", "/api/files/Books/x.txt"), Route::FileDelete("/Books/x.txt".into()));
    assert_eq!(route("POST", "/api/files/Books/x.txt/rename"), Route::FileRename("/Books/x.txt".into()));
    assert_eq!(route("PATCH", "/api/files/Books/x.txt"), Route::MethodNotAllowed);
    assert_eq!(route("PUT", "/api/files/../x"), Route::NotFound);
    assert_eq!(route("PUT", "/api/files/.quire/index.bin"), Route::NotFound);
    assert_eq!(route("PUT", "/api/files/"), Route::NotFound);
    assert!(Route::FilePut("/a".into()).is_write());
    assert!(!Route::FileGet("/a".into()).is_write());
}

#[test]
fn sanitizes() {
    assert_eq!(sanitize_path("a.epub").as_deref(), Some("/Books/a.epub"));
    assert_eq!(sanitize_path("/a.epub").as_deref(), Some("/a.epub"));
    assert_eq!(sanitize_path("Books//sub/b.txt").as_deref(), Some("/Books/sub/b.txt"));
    assert_eq!(sanitize_path("Books/../x"), None);
    assert_eq!(sanitize_path("Books/bad:name"), None);
    assert_eq!(sanitize_path("Books/trail."), None);
    assert_eq!(sanitize_path("Books/nl\nx"), None);
    assert_eq!(sanitize_path(""), None);
    assert_eq!(sanitize_path("/.quire/x"), None);
}

#[test]
fn query() {
    assert_eq!(query_param(Some("name=a%20b.pbm&x=1"), "name").as_deref(), Some("a b.pbm"));
    assert_eq!(query_param(Some("name=c+d"), "name").as_deref(), Some("c d"));
    assert_eq!(query_param(Some("x=1"), "name"), None);
    assert_eq!(query_param(None, "name"), None);
}

#[test]
fn paths_are_trimmed_and_bounded() {
    // White space around a path is dropped (U+2003 is white space too).
    assert_eq!(sanitize_path("\u{2003} /a.epub \t").as_deref(), Some("/a.epub"));
    assert_eq!(sanitize_path(&"x".repeat(255)).as_deref(), Some(format!("/Books/{}", "x".repeat(255)).as_str()));
    assert_eq!(sanitize_path(&"x".repeat(256)), None);
    assert_eq!(sanitize_path("/.quire"), None);
    assert_eq!(sanitize_path("/.quirex/a").as_deref(), Some("/.quirex/a"));
    assert_eq!(sanitize_path("///"), None);
}

#[test]
fn sanitizing_twice_changes_nothing() {
    for p in ["a.epub", "/a/b/c.txt", "Books//x", "  y  "] {
        let once = sanitize_path(p).unwrap();
        assert_eq!(sanitize_path(&once).as_deref(), Some(once.as_str()));
    }
}

#[test]
fn escapes_decode_once() {
    assert_eq!(percent_decode("a%2fb%2"), "a/b%2");
    assert_eq!(percent_decode("%zz%41"), "%zzA");
    assert_eq!(percent_decode("%25%32%30"), "%20");
    assert_eq!(percent_decode("%C3%A9"), "é");
    // What is no UTF-8 becomes a replacement character.
    assert_eq!(percent_decode("%FF"), "\u{FFFD}");
}

#[test]
fn reading_never_writes() {
    for path in ["/", "/upload", "/sleep", "/api/settings", "/api/fetch", "/api/files/a.epub", "/api/files/a.epub/rename"] {
        assert!(!route("GET", path).is_write());
        assert!(!route("HEAD", path).is_write());
        assert_eq!(route("GET", path), route("HEAD", path));
    }
}

#[test]
fn every_other_route() {
    assert_eq!(route("GET", "/captive"), Route::Captive);
    assert_eq!(route("GET", "/api/library"), Route::Library);
    assert_eq!(route("GET", "/api/settings"), Route::SettingsGet);
    assert_eq!(route("GET", "/api/stats"), Route::Stats);
    assert_eq!(route("GET", "/api/screen.pbm"), Route::Screen);
    assert_eq!(route("POST", "/sleep"), Route::Sleep);
    assert_eq!(route("DELETE", "/api/settings"), Route::MethodNotAllowed);
}
