use cool_stylesheet::dispatch::{classify, endpoint, script_response, Route};
use cool_stylesheet::message::Header;
use cool_stylesheet::watch::{
    escapes, hint, hints, href_hint, payload, step, StreamAction, StreamEvent, StreamState,
    KEEP_ALIVE_SECONDS, KEEP_ALIVE_TEXT, QUEUE_CAPACITY,
};

fn some(s: &str) -> Option<String> {
    Some(s.to_string())
}

#[test]
fn escapes_sees_paths_that_leave_the_root() {
    assert!(escapes(".."));
    assert!(escapes("../a.css"));
    assert!(escapes("../../a.css"));
    assert!(escapes("/etc/passwd"));
    assert!(!escapes("x/y.css"));
    assert!(!escapes("..a/y.css"));
    assert!(!escapes("..."));
    assert!(!escapes("."));
    assert!(!escapes(""));
    assert!(!escapes("x/../y"));
    assert!(escapes("a/../../x"));
    assert!(escapes("a/../.."));
    assert!(escapes("a/b/../../../c/d"));
    assert!(escapes("./.."));
    assert!(escapes("a//../.."));
    assert!(escapes("a/./../../b"));
    assert!(!escapes("a/.."));
    assert!(!escapes("a/../"));
    assert!(!escapes("a/b/../../c"));
    assert!(!escapes("./a"));
    assert!(!escapes("a/.../b"));
    assert!(!escapes("a/..b/../.."));
}

#[test]
fn hint_is_absent_for_a_path_that_climbs_out_in_mid_path() {
    assert_eq!(hint("/w/a/../../x", Some("/w"), "styles"), None);
    assert_eq!(hint("/w/a/../..", Some("/w"), "styles"), None);
    assert_eq!(href_hint(some("a/../../x"), "styles"), None);
    assert_eq!(href_hint(some("a/../x"), "styles"), some("/styles/a/../x"));
    let paths = vec![some("/w/a.css"), some("/w/a/../../x"), some("/w/b.css")];
    let found = hints(&paths, Some("/w"), "s");
    assert_eq!(found, vec![some("/s/a.css"), None, some("/s/b.css")]);
    assert_eq!(payload(&found), "{\"hrefs\":[\"/s/a.css\",null,\"/s/b.css\"]}");
}

#[test]
fn href_hint_rebases_under_the_style_prefix() {
    assert_eq!(href_hint(some("x/y.css"), "styles"), some("/styles/x/y.css"));
    assert_eq!(href_hint(some("y.css"), "a/b"), some("/a/b/y.css"));
    assert_eq!(href_hint(some("y.css"), ""), some("/y.css"));
    assert_eq!(href_hint(some("../y.css"), "styles"), None);
    assert_eq!(href_hint(None, "styles"), None);
}

#[test]
fn hint_is_relative_to_the_root() {
    assert_eq!(hint("/site/x/y.css", Some("/site"), "styles"), some("/styles/x/y.css"));
    assert_eq!(hint("/other/b.css", Some("/site"), "styles"), None);
    assert_eq!(hint("/site/x/y.css", None, "styles"), None);
    assert_eq!(hint("x/y.css", Some("/site"), "styles"), None);
    assert_eq!(hint("/site/x/y.css", Some("site"), "styles"), None);
}

#[test]
fn hints_keep_order_and_length() {
    let paths = vec![some("/site/x/y.css"), some("/other/b.css")];
    let found = hints(&paths, Some("/site"), "styles");
    assert_eq!(found, vec![some("/styles/x/y.css"), None]);
    assert_eq!(payload(&found), "{\"hrefs\":[\"/styles/x/y.css\",null]}");
    assert_eq!(hints(&Vec::new(), Some("/site"), "styles"), Vec::<Option<String>>::new());
    assert_eq!(hints(&paths, None, "styles"), vec![None, None]);
}

#[test]
fn hints_degrade_a_single_bad_path_to_null() {
    let paths = vec![some("/site/a.css"), None, some("/site/b/c.css")];
    let found = hints(&paths, Some("/site"), "s");
    assert_eq!(found, vec![some("/s/a.css"), None, some("/s/b/c.css")]);
    assert_eq!(payload(&found), "{\"hrefs\":[\"/s/a.css\",null,\"/s/b/c.css\"]}");
}

#[test]
fn payload_is_a_json_object_with_one_field() {
    assert_eq!(payload(&Vec::new()), "{\"hrefs\":[]}");
    assert_eq!(payload(&vec![None]), "{\"hrefs\":[null]}");
    assert_eq!(payload(&vec![some("/s/a\"b.css"), some("/s/c.css")]),
        "{\"hrefs\":[\"/s/a\\\"b.css\",\"/s/c.css\"]}");
}

#[test]
fn step_follows_the_stream_through_its_states() {
    let root = Some("/site");
    let (s, a) = step(StreamState::Init, &StreamEvent::Subscribed, root, "styles");
    assert_eq!((s, a), (StreamState::Watching, StreamAction::StartWatch));
    let changed = StreamEvent::Changed(vec![some("/site/x/y.css"), some("/b.css")]);
    let (s, a) = step(s, &changed, root, "styles");
    assert_eq!(s, StreamState::Emitting);
    assert_eq!(a, StreamAction::Send("{\"hrefs\":[\"/styles/x/y.css\",null]}".to_string()));
    let (s, a) = step(s, &StreamEvent::Sent, root, "styles");
    assert_eq!((s, a), (StreamState::Watching, StreamAction::Await));
    let (s, a) = step(s, &StreamEvent::Disconnected, root, "styles");
    assert_eq!((s, a), (StreamState::Closed, StreamAction::TearDown));
    let (s, a) = step(s, &changed, root, "styles");
    assert_eq!((s, a), (StreamState::Closed, StreamAction::Ignore));
}

#[test]
fn step_closes_on_watcher_failure_and_ignores_the_rest() {
    let (s, a) = step(StreamState::Emitting, &StreamEvent::WatcherFailed, None, "s");
    assert_eq!((s, a), (StreamState::Closed, StreamAction::TearDown));
    let (s, a) = step(StreamState::Watching, &StreamEvent::WatcherFailed, None, "s");
    assert_eq!((s, a), (StreamState::Closed, StreamAction::TearDown));
    let (s, a) = step(StreamState::Init, &StreamEvent::Disconnected, None, "s");
    assert_eq!((s, a), (StreamState::Closed, StreamAction::Ignore));
    let (s, a) = step(StreamState::Watching, &StreamEvent::Sent, None, "s");
    assert_eq!((s, a), (StreamState::Watching, StreamAction::Ignore));
    let (s, a) = step(StreamState::Emitting, &StreamEvent::Changed(Vec::new()), None, "s");
    assert_eq!((s, a), (StreamState::Emitting, StreamAction::Ignore));
    let (s, a) = step(StreamState::Init, &StreamEvent::Sent, None, "s");
    assert_eq!((s, a), (StreamState::Init, StreamAction::Ignore));
    let (s, a) = step(StreamState::Closed, &StreamEvent::Subscribed, None, "s");
    assert_eq!((s, a), (StreamState::Closed, StreamAction::Ignore));
}

#[test]
fn keep_alive_is_sent_every_ten_seconds() {
    assert_eq!(KEEP_ALIVE_SECONDS, 10);
    assert_eq!(KEEP_ALIVE_TEXT, "keep-alive-text");
    assert_eq!(QUEUE_CAPACITY, 1);
}

#[test]
fn classify_knows_the_reserved_endpoints() {
    assert_eq!(classify("/_cool/cool-stylesheet.js", "_cool"), Route::ClientScript);
    assert_eq!(classify("/_cool/watch", "_cool"), Route::Watch);
    assert_eq!(classify("/", "_cool"), Route::Fallback);
    assert_eq!(classify("/index.html", "_cool"), Route::Fallback);
    assert_eq!(classify("/_cool/watch/", "_cool"), Route::Fallback);
    assert_eq!(classify("/other/watch", "_cool"), Route::Fallback);
    assert_eq!(classify("/_cool/cool-stylesheet.js", "other"), Route::Fallback);
    assert_eq!(classify("", "_cool"), Route::Fallback);
}

#[test]
fn endpoint_stands_under_the_prefix() {
    assert_eq!(endpoint("_cool", "/watch"), "/_cool/watch");
    assert_eq!(endpoint("", "/cool-stylesheet.js"), "//cool-stylesheet.js");
    assert_eq!(classify(&endpoint("a/b", "/watch"), "a/b"), Route::Watch);
}

#[test]
fn script_response_serves_the_asset_verbatim() {
    let out = script_response(b"export {};".to_vec());
    assert_eq!(out.status, 200);
    assert_eq!(out.body, b"export {};".to_vec());
    assert_eq!(
        out.headers,
        vec![Header { name: b"content-type".to_vec(), value: b"application/javascript".to_vec() }]
    );
}
