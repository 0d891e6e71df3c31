use badlopo::path::{candidate_path, join_path, normalize_segments};
use badlopo::response::{
    finalize_headers, internal_error, not_found, remove_header, respond, respond_internal_error,
    same_header_name, set_header, Body, Header,
};
use badlopo::serve::{FileKind, ResolvedTarget, ServeImpl, ServeMode, ServerConfig, StartupError};

fn request(segs: &[&str]) -> Vec<String> {
    segs.iter().map(|s| s.to_string()).collect()
}

fn site(mode: ServeMode) -> ServerConfig {
    match ServeImpl::startup("/site", "index.html", 8080, mode, FileKind::Directory, FileKind::File) {
        Ok(config) => config,
        Err(_) => panic!("a valid site must start"),
    }
}

fn found(target: &ResolvedTarget) -> Option<String> {
    match target {
        ResolvedTarget::Found(p) => Some(p.clone()),
        ResolvedTarget::NotFound => None,
    }
}

fn header(name: &str, value: &str) -> Header {
    (name.to_string(), value.to_string())
}

#[test]
fn startup_fixes_configuration() {
    let config = site(ServeMode::Mixed);
    assert_eq!(config.root, "/site");
    assert_eq!(config.entry, "/site/index.html");
    assert_eq!(config.port, 8080);
    assert_eq!(config.mode, ServeMode::Mixed);
}

#[test]
fn startup_rejects_root_that_is_a_file() {
    let r = ServeImpl::startup("/site", "index.html", 80, ServeMode::Mixed, FileKind::File, FileKind::File);
    match r {
        Err(e) => {
            assert_eq!(e, StartupError::InvalidRoot);
            assert_eq!(e.message(), "Invalid root (root is not a directory)");
        }
        Ok(_) => panic!("a file root must be rejected"),
    }
    let r = ServeImpl::startup("/nowhere", "index.html", 80, ServeMode::Direct, FileKind::Missing, FileKind::Missing);
    assert!(matches!(r, Err(StartupError::InvalidRoot)));
}

#[test]
fn startup_rejects_missing_entry() {
    let r = ServeImpl::startup("/site", "nope.html", 80, ServeMode::Single, FileKind::Directory, FileKind::Missing);
    match r {
        Err(e) => {
            assert_eq!(e, StartupError::InvalidEntry);
            assert_eq!(e.message(), "Invalid entry (entry is not a file)");
        }
        Ok(_) => panic!("a missing entry must be rejected"),
    }
    let r = ServeImpl::startup("/site", "img", 80, ServeMode::Single, FileKind::Directory, FileKind::Directory);
    assert!(matches!(r, Err(StartupError::InvalidEntry)));
}

#[test]
fn entry_path_joins_onto_root() {
    assert_eq!(ServeImpl::entry_path("/site", "index.html"), "/site/index.html");
    assert_eq!(ServeImpl::entry_path("/site/", "index.html"), "/site/index.html");
    assert_eq!(ServeImpl::entry_path("/site", "/srv/app.html"), "/srv/app.html");
    assert_eq!(ServeImpl::entry_path("", "index.html"), "index.html");
    assert_eq!(join_path(".", "a/b.html"), "./a/b.html");
}

#[test]
fn mixed_scenario_serves_existing_file() {
    let config = site(ServeMode::Mixed);
    let req = request(&["img", "logo.png"]);
    assert_eq!(config.candidate(&req), Some("/site/img/logo.png".to_string()));
    let target = config.resolve(&req, FileKind::File);
    assert_eq!(found(&target), Some("/site/img/logo.png".to_string()));
    let reply = respond(&target, "/img/logo.png");
    assert_eq!(reply.status, 200);
    assert!(matches!(reply.body, Body::File(ref p) if p == "/site/img/logo.png"));
}

#[test]
fn mixed_scenario_missing_falls_back_to_entry() {
    let config = site(ServeMode::Mixed);
    let target = config.resolve(&request(&["missing"]), FileKind::Missing);
    assert_eq!(found(&target), Some("/site/index.html".to_string()));
    let reply = respond(&target, "/missing");
    assert_eq!(reply.status, 200);
    assert!(matches!(reply.body, Body::File(ref p) if p == "/site/index.html"));
}

#[test]
fn mixed_directory_and_empty_path_fall_back() {
    let config = site(ServeMode::Mixed);
    assert_eq!(config.candidate(&request(&[])), Some("/site".to_string()));
    let target = config.resolve(&request(&[]), FileKind::Directory);
    assert_eq!(found(&target), Some("/site/index.html".to_string()));
    let target = config.resolve(&request(&["img"]), FileKind::Directory);
    assert_eq!(found(&target), Some("/site/index.html".to_string()));
    let target = config.resolve(&request(&["a\\b"]), FileKind::File);
    assert_eq!(found(&target), Some("/site/index.html".to_string()));
}

#[test]
fn direct_scenario_missing_is_not_found() {
    let config = site(ServeMode::Direct);
    let target = config.resolve(&request(&["missing"]), FileKind::Missing);
    assert!(found(&target).is_none());
    let reply = respond(&target, "/missing");
    assert_eq!(reply.status, 404);
    assert!(matches!(reply.body, Body::Text(ref t) if t == "I couldn't find '/missing'. Try something else?"));
}

#[test]
fn direct_serves_only_regular_files() {
    let config = site(ServeMode::Direct);
    let req = request(&["img", "logo.png"]);
    assert_eq!(found(&config.resolve(&req, FileKind::File)), Some("/site/img/logo.png".to_string()));
    assert!(found(&config.resolve(&req, FileKind::Directory)).is_none());
    assert!(found(&config.resolve(&req, FileKind::Other)).is_none());
    assert!(found(&config.resolve(&request(&[]), FileKind::Directory)).is_none());
    assert!(found(&config.resolve(&request(&["x/y"]), FileKind::File)).is_none());
}

#[test]
fn single_always_serves_entry() {
    let config = site(ServeMode::Single);
    assert!(!config.needs_lookup());
    for req in [request(&[]), request(&["..", "..", "etc", "passwd"]), request(&["img", "logo.png"])] {
        for kind in [FileKind::File, FileKind::Directory, FileKind::Missing, FileKind::Other] {
            assert_eq!(found(&config.resolve(&req, kind)), Some("/site/index.html".to_string()));
        }
    }
    assert!(site(ServeMode::Mixed).needs_lookup());
    assert!(site(ServeMode::Direct).needs_lookup());
}

#[test]
fn traversal_stays_under_root() {
    let req = request(&["..", "..", "etc", "passwd"]);
    assert_eq!(candidate_path("/site", &req), Some("/site/etc/passwd".to_string()));
    let req = request(&["a", ".", "", "..", "b"]);
    assert_eq!(candidate_path("/site", &req), Some("/site/b".to_string()));
    assert_eq!(candidate_path("/site", &request(&["a/../../x"])), None);
    assert_eq!(normalize_segments(&request(&["a", "..", ".."])), Some(vec![]));
    assert_eq!(normalize_segments(&request(&["..", "a"])), Some(vec!["a".to_string()]));
}

#[test]
fn repeated_requests_resolve_identically() {
    for mode in [ServeMode::Single, ServeMode::Mixed, ServeMode::Direct] {
        let config = site(mode);
        let req = request(&["img", "logo.png"]);
        for kind in [FileKind::File, FileKind::Missing] {
            let first = respond(&config.resolve(&req, kind), "/img/logo.png");
            let second = respond(&config.resolve(&req, kind), "/img/logo.png");
            assert_eq!(first.status, second.status);
            match (first.body, second.body) {
                (Body::File(a), Body::File(b)) => assert_eq!(a, b),
                (Body::Text(a), Body::Text(b)) => assert_eq!(a, b),
                _ => panic!("bodies differ"),
            }
        }
    }
}

#[test]
fn finalized_headers_allow_cors_and_framing() {
    let mut headers = vec![
        header("Content-Type", "text/html"),
        header("x-frame-options", "SAMEORIGIN"),
        header("access-control-allow-origin", "https://example.org"),
        header("X-Frame-Options", "DENY"),
    ];
    finalize_headers(&mut headers);
    assert_eq!(
        headers,
        vec![
            header("Content-Type", "text/html"),
            header("Access-Control-Allow-Origin", "*"),
            header("Access-Control-Allow-Methods", "*"),
            header("Access-Control-Allow-Headers", "Content-Type"),
        ]
    );
    let mut empty: Vec<Header> = Vec::new();
    finalize_headers(&mut empty);
    assert!(empty.contains(&header("Access-Control-Allow-Origin", "*")));
    assert!(!empty.iter().any(|h| h.0.eq_ignore_ascii_case("X-Frame-Options")));
}

#[test]
fn header_edits() {
    let mut headers = vec![header("A", "1"), header("b", "2"), header("a", "3")];
    remove_header(&mut headers, "a");
    assert_eq!(headers, vec![header("b", "2")]);
    set_header(&mut headers, "B", "4");
    assert_eq!(headers, vec![header("B", "4")]);
    assert!(same_header_name("Content-Type", "content-TYPE"));
    assert!(!same_header_name("Content-Type", "Content-Typ"));
    assert!(!same_header_name("[", "{"));
}

#[test]
fn catcher_bodies() {
    assert_eq!(not_found("/a/b?c"), "I couldn't find '/a/b?c'. Try something else?");
    assert_eq!(internal_error(), "Whoops! Looks like we messed up.");
    let reply = respond_internal_error();
    assert_eq!(reply.status, 500);
    assert!(matches!(reply.body, Body::Text(ref t) if t == "Whoops! Looks like we messed up."));
}
