use verwalter::routing::{
    api_suffix, find_content_type, parse_api, parse_log_route, path_component, route,
    validate_path, ApiRoute, Format, LogRoute, Route,
};

fn json() -> Option<&'static [u8]> {
    Some(b"application/json")
}

#[test]
fn path_component_splits_first_component() {
    assert_eq!(path_component("/v1/status"), ("v1", "status"));
    assert_eq!(path_component("v1/status"), ("v1", "status"));
    assert_eq!(path_component("/status.pretty"), ("status", ""));
    assert_eq!(path_component("/a/b/c.js"), ("a", "b/c.js"));
    assert_eq!(path_component(""), ("", ""));
    assert_eq!(path_component("/"), ("", ""));
    assert_eq!(path_component("//x"), ("", "x"));
}

#[test]
fn api_suffix_picks_format() {
    assert_eq!(api_suffix("status.pretty"), Format::Plain);
    assert_eq!(api_suffix("status.gron"), Format::Gron);
    assert_eq!(api_suffix("status"), Format::Json);
    assert_eq!(api_suffix("a.gron/status"), Format::Json);
    assert_eq!(api_suffix("status.json"), Format::Json);
}

#[test]
fn validate_path_refuses_escapes() {
    assert!(validate_path("a/b/c.txt"));
    assert!(validate_path(""));
    assert!(validate_path("a//b/./c/"));
    assert!(validate_path("a..b/.hidden"));
    assert!(!validate_path("/etc/passwd"));
    assert!(!validate_path("../x"));
    assert!(!validate_path("a/../x"));
    assert!(!validate_path("a/.."));
    assert!(!validate_path("./a"));
    assert!(!validate_path("."));
    assert!(!validate_path(".."));
}

#[test]
fn log_routes() {
    match parse_log_route("role/myrole/log.txt") {
        Some(LogRoute::Role(tail)) => assert_eq!(tail, "myrole/log.txt"),
        other => panic!("unexpected {:?}", other),
    }
    match parse_log_route("index/latest") {
        Some(LogRoute::Index(tail)) => assert_eq!(tail, "latest"),
        other => panic!("unexpected {:?}", other),
    }
    match parse_log_route("external/app/x") {
        Some(LogRoute::External(tail)) => assert_eq!(tail, "app/x"),
        other => panic!("unexpected {:?}", other),
    }
    assert!(parse_log_route("role/../secret").is_none());
    assert!(parse_log_route("other/x").is_none());
}

#[test]
fn api_routes() {
    assert!(matches!(parse_api("status", None), Some(Route::Api(ApiRoute::Status, Format::Json))));
    assert!(matches!(parse_api("status.pretty", None), Some(Route::Api(ApiRoute::Status, Format::Plain))));
    assert!(matches!(parse_api("peers.gron", None), Some(Route::Api(ApiRoute::Peers, Format::Gron))));
    assert!(matches!(parse_api("scheduler_debug_info.gron", None),
        Some(Route::Api(ApiRoute::SchedulerDebugInfo, Format::Plain))));
    assert!(matches!(parse_api("leader-redirect-by-node-name", None),
        Some(Route::Api(ApiRoute::RedirectByNodeName, Format::Plain))));
    assert!(matches!(parse_api("action", None), Some(Route::BadContentType)));
    assert!(matches!(parse_api("action", json()), Some(Route::Api(ApiRoute::PushAction, Format::Json))));
    assert!(matches!(parse_api("wait_action", json()), Some(Route::Api(ApiRoute::WaitAction, _))));
    assert!(matches!(parse_api("action_is_pending/123", None),
        Some(Route::Api(ApiRoute::ActionIsPending(123), Format::Json))));
    assert!(matches!(parse_api("action_is_pending/+7", None),
        Some(Route::Api(ApiRoute::ActionIsPending(7), _))));
    assert!(parse_api("action_is_pending/-1", None).is_none());
    assert!(parse_api("action_is_pending/18446744073709551616", None).is_none());
    assert!(parse_api("action_is_pending/", None).is_none());
    match parse_api("backup/hourly-20180101T10", None) {
        Some(Route::Api(ApiRoute::Backup(name), Format::Json)) => assert_eq!(name, "hourly-20180101T10"),
        other => panic!("unexpected {:?}", other),
    }
    assert!(parse_api("backup/a_b", None).is_none());
    match parse_api("query/some/path", json()) {
        Some(Route::Api(ApiRoute::Query(q), Format::Json)) => assert_eq!(q.path, "some/path"),
        other => panic!("unexpected {:?}", other),
    }
    assert!(matches!(parse_api("query/x", Some(b"text/plain")), Some(Route::BadContentType)));
    assert!(matches!(parse_api("wasm/scheduler.wasm", None), Some(Route::WasmScheduler)));
    assert!(matches!(parse_api("wasm/query.wasm", None), Some(Route::WasmQuery)));
    assert!(parse_api("wasm/other.wasm", None).is_none());
    assert!(parse_api("status/extra", None).is_none());
    assert!(parse_api("unknown", None).is_none());
    match parse_api("log/global/log.1.txt", None) {
        Some(Route::Log(LogRoute::Global(tail))) => assert_eq!(tail, "log.1.txt"),
        other => panic!("unexpected {:?}", other),
    }
}

#[test]
fn whole_routes() {
    assert!(matches!(route(None, None), Route::NotFound));
    assert!(matches!(route(Some("/"), None), Route::CommonIndex));
    assert!(matches!(route(Some("/anything/else"), None), Route::CommonIndex));
    assert!(matches!(route(Some("/v1/status?x=1"), None), Route::Api(ApiRoute::Status, Format::Json)));
    assert!(matches!(route(Some("/v1/nothing"), None), Route::NotFound));
    match route(Some("/~dev/js/app.js"), None) {
        Route::AlterStatic(p) => assert_eq!(p, "dev/js/app.js"),
        other => panic!("unexpected {:?}", other),
    }
    match route(Some("/~dev/peers"), None) {
        Route::AlterIndex(p) => assert_eq!(p, "dev"),
        other => panic!("unexpected {:?}", other),
    }
    assert!(matches!(route(Some("/~dev/../x"), None), Route::NotFound));
    match route(Some("/common/css/main.css"), None) {
        Route::CommonStatic(p) => assert_eq!(p, "css/main.css"),
        other => panic!("unexpected {:?}", other),
    }
    assert!(matches!(route(Some("/common/../x"), None), Route::NotFound));
}

#[test]
fn content_type_header_is_found_in_any_case() {
    let headers: Vec<(&str, &[u8])> = vec![
        ("Host", b"x"),
        ("content-TYPE", b"application/json"),
        ("Content-Type", b"text/plain"),
    ];
    assert_eq!(find_content_type(&headers), Some(&b"application/json"[..]));
    let none: Vec<(&str, &[u8])> = vec![("Host", b"x")];
    assert_eq!(find_content_type(&none), None);
}

#[test]
fn reply_content_types() {
    assert_eq!(verwalter::routing::reply_content_type(verwalter::routing::Format::Json), "application/json");
    assert_eq!(verwalter::routing::reply_content_type(verwalter::routing::Format::Plain), "application/json");
    assert_eq!(verwalter::routing::reply_content_type(verwalter::routing::Format::Gron), "text/x-gron");
}

#[test]
fn query_string_does_not_change_the_route() {
    for (with, without) in [
        ("/common/js/app.js?v=3", "/common/js/app.js"),
        ("/v1/peers.json?x?y", "/v1/peers.json"),
        ("/~admin/css/a.css?q", "/~admin/css/a.css"),
        ("/?only", "/"),
    ] {
        assert_eq!(
            format!("{:?}", route(Some(with), None)),
            format!("{:?}", route(Some(without), None))
        );
    }
}
