use gatekeep::auth::check_password;
use gatekeep::auth::credential_from_bytes;
use gatekeep::auth::credential_from_text;
use gatekeep::auth::decode_credential;
use gatekeep::auth::is_authorized;
use gatekeep::dispatch::api_routes;
use gatekeep::dispatch::dispatch;
use gatekeep::dispatch::split_path;
use gatekeep::dispatch::Dispatch;
use gatekeep::dispatch::Method;
use gatekeep::dispatch::Target;
use gatekeep::gateway::decide;
use gatekeep::gateway::judge;
use gatekeep::gateway::Decision;

fn found(d: &Dispatch) -> (Target, Option<String>) {
    match d {
        Dispatch::Found { target, param, .. } => (*target, param.clone()),
        other => panic!("no route found: {:?}", other),
    }
}

#[test]
fn unauthenticated_ping_is_refused_with_empty_body() {
    let table = api_routes();
    let d = judge(&table, None, None, Method::Get, "/api/ping");
    assert!(matches!(d, Decision::Unauthorized));
    assert_eq!(d.status(), 401);
    assert_eq!(d.body(), "");
}

#[test]
fn malformed_headers_are_refused() {
    let table = api_routes();
    // one word only
    assert!(matches!(judge(&table, Some("Basic"), None, Method::Get, "/api/ping"), Decision::Unauthorized));
    // three words
    assert!(matches!(
        judge(&table, Some("Basic dXNlcjpwYXNz extra"), None, Method::Get, "/api/ping"),
        Decision::Unauthorized
    ));
    // not base64
    assert!(matches!(judge(&table, Some("Basic !!!!"), None, Method::Get, "/api/ping"), Decision::Unauthorized));
    // "nocolon"
    assert!(matches!(judge(&table, Some("Basic bm9jb2xvbg=="), None, Method::Get, "/api/ping"), Decision::Unauthorized));
    // "a:b:c"
    assert!(matches!(judge(&table, Some("Basic YTpiOmM="), None, Method::Get, "/api/ping"), Decision::Unauthorized));
    // the byte 0xFF, not UTF-8
    assert!(matches!(judge(&table, Some("Basic /w=="), None, Method::Get, "/api/ping"), Decision::Unauthorized));
    assert!(!is_authorized(None, None));
    assert!(!is_authorized(Some(""), None));
    // a well-formed token under another scheme; "test" matches the stored hash
    let des = Some("aZGJuE6EXrjEE".to_string());
    assert!(is_authorized(Some("Basic dXNlcjp0ZXN0"), des.clone()));
    assert!(!is_authorized(Some("Bearer dXNlcjp0ZXN0"), des.clone()));
    assert!(matches!(
        judge(&table, Some("Bearer dXNlcjp0ZXN0"), des.clone(), Method::Get, "/api/ping"),
        Decision::Unauthorized
    ));
    let d = judge(&table, Some("Basic dXNlcjp0ZXN0"), des, Method::Get, "/api/ping");
    assert!(matches!(d, Decision::Routed(Dispatch::Found { target: Target::Ping, .. })));
}

#[test]
fn refused_requests_reach_no_route_whatever_the_path() {
    let table = api_routes();
    for path in ["/api/ping", "/api/ip", "/api/does-not-exist", "/elsewhere"] {
        let d = decide(&table, false, Method::Get, path);
        assert!(matches!(d, Decision::Unauthorized));
        assert_eq!(d.status(), 401);
        assert_eq!(d.body(), "");
    }
}

#[test]
fn header_credential_is_decoded() {
    let c = decode_credential("Basic dXNlcjpwYXNz").unwrap();
    assert_eq!(c.username, "user");
    assert_eq!(c.password, "pass");
    let c = decode_credential("  Basic \t dXNlcjo=  ").unwrap();
    assert_eq!(c.username, "user");
    assert_eq!(c.password, "");
    assert!(decode_credential("Basic YTpiOmM=").is_none());
    assert!(decode_credential("Basic /w==").is_none());
    assert!(decode_credential("dXNlcjpwYXNz").is_none());
    assert!(decode_credential("Bearer dXNlcjpwYXNz").is_none());
    assert!(decode_credential("basic dXNlcjpwYXNz").is_none());
}

#[test]
fn credential_text_needs_exactly_one_colon() {
    let c = credential_from_text("root:secret").unwrap();
    assert_eq!(c.username, "root");
    assert_eq!(c.password, "secret");
    assert!(credential_from_text("rootsecret").is_none());
    assert!(credential_from_text("a:b:c").is_none());
    let c = credential_from_text(":").unwrap();
    assert_eq!(c.username, "");
    assert_eq!(c.password, "");
    assert!(credential_from_bytes(vec![0xff, b':', b'x']).is_none());
    let c = credential_from_bytes(b"u:p".to_vec()).unwrap();
    assert_eq!(c.username, "u");
    assert_eq!(c.password, "p");
}

#[test]
fn unknown_account_is_refused_like_a_wrong_password() {
    assert!(!check_password("secret", None));
    // a DES hash of "test"; any other password is wrong
    assert!(!check_password("wrong", Some("aZGJuE6EXrjEE".to_string())));
    assert!(check_password("test", Some("aZGJuE6EXrjEE".to_string())));
    // the same password, refused alike with and without an account
    assert!(!check_password("test", None));
    let table = api_routes();
    let missing = judge(&table, Some("Basic dXNlcjp3cm9uZw=="), None, Method::Get, "/api/ping");
    let wrong = judge(
        &table,
        Some("Basic dXNlcjp3cm9uZw=="),
        Some("aZGJuE6EXrjEE".to_string()),
        Method::Get,
        "/api/ping",
    );
    assert!(matches!(missing, Decision::Unauthorized));
    assert!(matches!(wrong, Decision::Unauthorized));
    assert_eq!((missing.status(), missing.body()), (wrong.status(), wrong.body()));
}

#[test]
fn malformed_stored_hashes_are_refused() {
    assert!(!check_password("test", Some("\taZGJuE6EXrjEE".to_string())));
    assert!(!check_password("test", Some("a\u{1}".to_string())));
    assert!(!check_password("test", Some("".to_string())));
    assert!(!check_password("test", Some("$9$nonsense".to_string())));
    assert!(!check_password("test", Some("\u{80}aZGJuE6EXrjE".to_string())));
    assert!(!check_password("test", Some("$2y$05$\u{80}vIG6Nmid91Mu9RcmmWZfO".to_string())));
    assert!(!check_password("test", Some("a\u{e9}".to_string())));
    assert!(!check_password("test", Some("!".to_string())));
    assert!(!check_password("test", Some("*".to_string())));
}

#[test]
fn head_requests_fall_back_to_get_routes() {
    let table = api_routes();
    assert_eq!(found(&dispatch(&table, Method::Head, "/api/ping")), (Target::Ping, None));
    assert_eq!(
        found(&dispatch(&table, Method::Head, "/api/ping/1.1.1.1")),
        (Target::PingHost, Some("1.1.1.1".to_string()))
    );
    assert!(matches!(dispatch(&table, Method::Head, "/api/apk"), Dispatch::NotFound));
    assert!(matches!(dispatch(&table, Method::Options, "/api/ping"), Dispatch::NotFound));
}

#[test]
fn unknown_api_path_is_not_found() {
    let table = api_routes();
    let d = decide(&table, true, Method::Get, "/api/does-not-exist");
    assert!(matches!(d, Decision::Routed(Dispatch::NotFound)));
    assert_eq!(d.status(), 404);
    assert_eq!(d.body(), "Not Found");
}

#[test]
fn paths_outside_api_are_unrouted() {
    let table = api_routes();
    let d = decide(&table, true, Method::Get, "/index.html");
    assert!(matches!(d, Decision::Routed(Dispatch::Unrouted)));
    assert_eq!(d.status(), 404);
    assert_eq!(d.body(), "");
    assert!(matches!(dispatch(&table, Method::Get, "/api"), Dispatch::Unrouted));
}

#[test]
fn routes_select_their_handlers() {
    let table = api_routes();
    assert_eq!(table.len(), 21);
    assert_eq!(found(&dispatch(&table, Method::Get, "/api/ping")), (Target::Ping, None));
    assert_eq!(
        found(&dispatch(&table, Method::Get, "/api/ping/8.8.8.8")),
        (Target::PingHost, Some("8.8.8.8".to_string()))
    );
    assert_eq!(found(&dispatch(&table, Method::Put, "/api/firewall/rule")), (Target::PutRule, None));
    assert_eq!(found(&dispatch(&table, Method::Delete, "/api/firewall/rule")), (Target::DeleteRule, None));
    assert_eq!(
        found(&dispatch(&table, Method::Patch, "/api/firewall/template/home")),
        (Target::PatchTemplate, Some("home".to_string()))
    );
    assert_eq!(
        found(&dispatch(&table, Method::Get, "/api/devices/eth0")),
        (Target::Devices, Some("eth0".to_string()))
    );
    assert_eq!(found(&dispatch(&table, Method::Post, "/api/apk")), (Target::Apk, None));
    // a method that the path has no route for falls back to not found
    assert!(matches!(dispatch(&table, Method::Post, "/api/ping"), Dispatch::NotFound));
    // an empty capture matches nothing
    assert!(matches!(dispatch(&table, Method::Get, "/api/ping/"), Dispatch::NotFound));
    let g = decide(&table, true, Method::Get, "/api/ip");
    assert_eq!(g.status(), 200);
}

#[test]
fn dispatch_is_deterministic() {
    let table = api_routes();
    for path in ["/api/ping", "/api/traceroute/example.org", "/api/nothing", "/x"] {
        let a = dispatch(&table, Method::Get, path);
        let b = dispatch(&table, Method::Get, path);
        assert_eq!(format!("{:?}", a), format!("{:?}", b));
    }
}

#[test]
fn path_splits_into_segments() {
    assert_eq!(split_path("/api/ping/1.1.1.1"), vec!["api", "ping", "1.1.1.1"]);
    assert_eq!(split_path("/"), vec![""]);
    assert_eq!(split_path("a//b"), vec!["a", "", "b"]);
}
