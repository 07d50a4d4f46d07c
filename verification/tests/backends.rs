use cool_stylesheet::backend::{resolve, Backend, Fetch};
use cool_stylesheet::error::Error;
use cool_stylesheet::inject::inject;
use cool_stylesheet::message::{Header, Response};
use cool_stylesheet::paths::{ends_with_slash, trim_leading_slashes};
use cool_stylesheet::proxy::{forward, forward_to, target, upstream_url, Request};
use cool_stylesheet::serve::{
    content_type_for, plan_for, plan_static, static_response, static_target, StaticPlan,
};

fn header(name: &str, value: &str) -> Header {
    Header { name: name.as_bytes().to_vec(), value: value.as_bytes().to_vec() }
}

fn request(path: &str, query: Option<&str>) -> Request {
    Request {
        method: "GET".to_string(),
        path: path.to_string(),
        query: query.map(|q| q.to_string()),
        headers: vec![
            header("host", "localhost"),
            header("Accept-Encoding", "gzip, br"),
            header("accept", "*/*"),
        ],
        body: b"payload".to_vec(),
    }
}

#[test]
fn ends_with_slash_sees_directories() {
    assert!(ends_with_slash("/"));
    assert!(ends_with_slash("/docs/"));
    assert!(!ends_with_slash("/docs"));
    assert!(!ends_with_slash(""));
}

#[test]
fn trim_leading_slashes_drops_them_all() {
    assert_eq!(trim_leading_slashes("/a/b"), "a/b");
    assert_eq!(trim_leading_slashes("///a/"), "a/");
    assert_eq!(trim_leading_slashes("a/b"), "a/b");
    assert_eq!(trim_leading_slashes("//"), "");
    assert_eq!(trim_leading_slashes(""), "");
    assert_eq!(trim_leading_slashes("/é/x"), "é/x");
}

#[test]
fn static_target_maps_paths_under_the_root() {
    assert_eq!(static_target("/site", "/"), "/site/index.html");
    assert_eq!(static_target("/site", "/css/a.css"), "/site/css/a.css");
    assert_eq!(static_target("/site", "/docs/"), "/site/docs/index.html");
    assert_eq!(static_target("/site/", "//a.js"), "/site/a.js");
    assert_eq!(static_target("site", "/../x.css"), "site/../x.css");
}

#[test]
fn content_type_for_appends_the_charset() {
    assert_eq!(content_type_for("text/css"), b"text/css; charset=utf-8".to_vec());
    assert_eq!(content_type_for(""), b"; charset=utf-8".to_vec());
}

#[test]
fn plan_for_needs_a_media_type() {
    assert_eq!(plan_for("/site/a".to_string(), None), None);
    assert_eq!(
        plan_for("/site/a.css".to_string(), Some("text/css".to_string())),
        Some(StaticPlan {
            file: "/site/a.css".to_string(),
            content_type: b"text/css; charset=utf-8".to_vec()
        })
    );
}

#[test]
fn plan_static_guesses_the_type_from_the_extension() {
    let plan = plan_static("/site", "/").unwrap();
    assert_eq!(plan.file, "/site/index.html");
    assert_eq!(plan.content_type, b"text/html; charset=utf-8".to_vec());
    let plan = plan_static("/site", "/css/a.css").unwrap();
    assert_eq!(plan.file, "/site/css/a.css");
    assert_eq!(plan.content_type, b"text/css; charset=utf-8".to_vec());
    assert_eq!(plan_static("/site", "/README"), None);
    assert_eq!(plan_static("/site", "/a.unknown-extension"), None);
}

#[test]
fn static_response_is_200_or_404() {
    let found = static_response(Some(b"text/css; charset=utf-8".to_vec()), Some(b"a{}".to_vec()));
    assert_eq!(
        found,
        Response {
            status: 200,
            headers: vec![header("content-type", "text/css; charset=utf-8")],
            body: b"a{}".to_vec()
        }
    );
    let missing = Response { status: 404, headers: Vec::new(), body: Vec::new() };
    assert_eq!(static_response(Some(b"text/css; charset=utf-8".to_vec()), None), missing);
    assert_eq!(static_response(None, Some(b"a{}".to_vec())), missing);
    assert_eq!(static_response(None, None), missing);
}

#[test]
fn served_index_is_rewritten_end_to_end() {
    let plan = plan_static("/site", "/").unwrap();
    assert_eq!(plan.file, "/site/index.html");
    let file = b"<head><link rel=\"stylesheet\" href=\"/style.css\"></head>".to_vec();
    let out = inject(static_response(Some(plan.content_type), Some(file)), "_cool").unwrap();
    assert_eq!(out.status, 200);
    assert_eq!(out.headers, vec![header("content-type", "text/html; charset=utf-8")]);
    let body = String::from_utf8(out.body).unwrap();
    assert!(body.contains("<link rel=\"stylesheet\" href=\"/style.css\" is=\"cool-stylesheet\">"));
    assert!(body.contains("<script type=\"module\" src=\"/_cool/cool-stylesheet.js\"></script>"));
}

#[test]
fn proxied_plain_text_is_relayed_untouched() {
    let upstream = Response {
        status: 200,
        headers: vec![header("content-type", "text/plain"), header("content-length", "5")],
        body: b"hello".to_vec(),
    };
    let out = inject(upstream.clone(), "_cool").unwrap();
    assert_eq!(out, upstream);
}

#[test]
fn target_joins_path_and_query() {
    assert_eq!(target("/a/b", Some("x=1&y=2")), "/a/b?x=1&y=2");
    assert_eq!(target("/a/b", None), "/a/b");
    assert_eq!(target("/", Some("")), "/?");
}

#[test]
fn upstream_url_resolves_against_the_host() {
    assert_eq!(
        upstream_url("http://localhost:3000", "/a/b?x=1"),
        Ok("http://localhost:3000/a/b?x=1".to_string())
    );
    assert_eq!(
        upstream_url("http://localhost:3000/app/", "/anything"),
        Ok("http://localhost:3000/anything".to_string())
    );
    assert_eq!(upstream_url("not a url", "/a"), Err(Error::InvalidUpstream));
    assert_eq!(upstream_url("", "/a"), Err(Error::InvalidUpstream));
}

#[test]
fn forward_to_forces_the_identity_encoding() {
    let sent = forward_to(request("/a", None), "http://up/a".to_string());
    assert_eq!(sent.method, "GET");
    assert_eq!(sent.url, "http://up/a");
    assert_eq!(sent.body, b"payload".to_vec());
    assert_eq!(
        sent.headers,
        vec![
            header("host", "localhost"),
            header("accept", "*/*"),
            header("accept-encoding", "identity")
        ]
    );
}

#[test]
fn forward_resolves_and_forwards() {
    let sent = forward(request("/anything", Some("q=1")), "http://127.0.0.1:8080").unwrap();
    assert_eq!(sent.url, "http://127.0.0.1:8080/anything?q=1");
    assert_eq!(sent.method, "GET");
    assert_eq!(sent.body, b"payload".to_vec());
    assert_eq!(sent.headers.len(), 3);
    assert_eq!(sent.headers[2], header("accept-encoding", "identity"));
    assert_eq!(forward(request("/a", None), "::"), Err(Error::InvalidUpstream));
}

#[test]
fn resolve_plans_a_file_for_the_static_backend() {
    let backend = Backend::StaticDirectory { root: "/site".to_string() };
    assert_eq!(
        resolve(&backend, request("/", Some("x=1"))),
        Ok(Fetch::File(StaticPlan {
            file: "/site/index.html".to_string(),
            content_type: b"text/html; charset=utf-8".to_vec()
        }))
    );
    assert_eq!(resolve(&backend, request("/LICENSE", None)), Ok(Fetch::Missing));
}

#[test]
fn resolve_forwards_for_the_proxy_backend() {
    let backend = Backend::UpstreamProxy { base_url: "http://localhost:9000".to_string() };
    let fetch = resolve(&backend, request("/anything", None)).unwrap();
    assert_eq!(
        fetch,
        Fetch::Upstream(forward(request("/anything", None), "http://localhost:9000").unwrap())
    );
    let broken = Backend::UpstreamProxy { base_url: "nowhere".to_string() };
    assert_eq!(resolve(&broken, request("/anything", None)), Err(Error::InvalidUpstream));
}

#[test]
fn served_stylesheet_passes_through_untouched() {
    let plan = plan_static("/site", "/css/a.css").unwrap();
    let file = b"<head></head> a { color: red }".to_vec();
    let out = inject(static_response(Some(plan.content_type), Some(file.clone())), "_cool").unwrap();
    assert_eq!(out.status, 200);
    assert_eq!(out.headers, vec![header("content-type", "text/css; charset=utf-8")]);
    assert_eq!(out.body, file);
}

#[test]
fn missing_file_is_a_bare_404_end_to_end() {
    let plan = plan_static("/site", "/gone.html").unwrap();
    let out = inject(static_response(Some(plan.content_type), None), "_cool").unwrap();
    assert_eq!(out, Response { status: 404, headers: Vec::new(), body: Vec::new() });
    let out = inject(static_response(None, None), "_cool").unwrap();
    assert_eq!(out, Response { status: 404, headers: Vec::new(), body: Vec::new() });
}
