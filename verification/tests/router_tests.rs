use dino::error::AppError;
use dino::registry::{get_router_by_host, AppState, TenentRouter};
use dino::router::{AppRouter, ProjectRoute, SwappableAppRouter};

fn route(method: &str, path: &str, handler: &str) -> ProjectRoute {
    ProjectRoute {
        method: method.to_string(),
        path: path.to_string(),
        handler: handler.to_string(),
    }
}

#[test]
fn route_match_success() {
    let router = AppRouter::try_new("code".to_string(), vec![route("GET", "/hello/:name", "greet")])
        .unwrap();
    let m = router.match_it("GET", "/hello/world").unwrap();
    assert_eq!(m.handler, "greet");
    assert_eq!(m.params, vec![("name".to_string(), "world".to_string())]);
}

#[test]
fn method_mismatch_is_405() {
    let router = AppRouter::try_new("code".to_string(), vec![route("GET", "/hello/:name", "greet")])
        .unwrap();
    let err = router.match_it("POST", "/hello/world").unwrap_err();
    assert_eq!(err.status_code(), 405);
    assert!(matches!(err, AppError::RouteMethodNotAllowed(_)));
}

#[test]
fn unknown_path_is_404() {
    let router = AppRouter::try_new("code".to_string(), vec![route("GET", "/hello/:name", "greet")])
        .unwrap();
    let err = router.match_it("GET", "/bye/world").unwrap_err();
    assert_eq!(err.status_code(), 404);
    assert!(matches!(err, AppError::RoutePathNotFound(_)));
}

#[test]
fn methods_compare_as_uppercase() {
    let router = AppRouter::try_new("code".to_string(), vec![route("get", "/a", "h")]).unwrap();
    assert_eq!(router.match_it("get", "/a").unwrap().handler, "h");
    assert_eq!(router.match_it("GET", "/a").unwrap().handler, "h");
}

#[test]
fn literal_pattern_beats_parameter_pattern() {
    let router = AppRouter::try_new(
        "code".to_string(),
        vec![route("GET", "/hello/:name", "generic"), route("GET", "/hello/world", "exact")],
    )
    .unwrap();
    assert_eq!(router.match_it("GET", "/hello/world").unwrap().handler, "exact");
    assert_eq!(router.match_it("GET", "/hello/there").unwrap().handler, "generic");
}

#[test]
fn equal_specificity_goes_to_insertion_order() {
    let router = AppRouter::try_new(
        "code".to_string(),
        vec![route("GET", "/x/:a", "first"), route("GET", "/x/:b", "second")],
    )
    .unwrap();
    assert_eq!(router.match_it("GET", "/x/1").unwrap().handler, "first");
}

#[test]
fn trailing_slash_is_significant() {
    let router = AppRouter::try_new("code".to_string(), vec![route("GET", "/a", "h")]).unwrap();
    assert!(router.match_it("GET", "/a/").is_err());
}

#[test]
fn malformed_pattern_is_rejected() {
    let err = AppRouter::try_new("code".to_string(), vec![route("GET", "hello", "h")]).unwrap_err();
    assert!(matches!(err, AppError::Internal(_)));
    let err2 =
        AppRouter::try_new("code".to_string(), vec![route("GET", "/a/:", "h")]).unwrap_err();
    assert!(matches!(err2, AppError::Internal(_)));
}

#[test]
fn hot_swap_keeps_old_snapshot_and_publishes_new_table() {
    let mut router = SwappableAppRouter::try_new(
        "v1".to_string(),
        vec![route("GET", "/hello/:name", "greet")],
    )
    .unwrap();
    let snapshot = router.load();
    router.swap("v2".to_string(), vec![route("GET", "/hello/:name", "greet2")]).unwrap();
    // the old snapshot is a complete, unchanged (code, routes) pair
    assert_eq!(snapshot.code, "v1");
    assert_eq!(snapshot.match_it("GET", "/hello/x").unwrap().handler, "greet");
    // a load after the swap observes the new pair
    let fresh = router.load();
    assert_eq!(fresh.code, "v2");
    assert_eq!(fresh.match_it("GET", "/hello/x").unwrap().handler, "greet2");
}

#[test]
fn failed_swap_leaves_old_table_authoritative() {
    let mut router =
        SwappableAppRouter::try_new("v1".to_string(), vec![route("GET", "/a", "h")]).unwrap();
    assert!(router.swap("v2".to_string(), vec![route("GET", "bad", "h")]).is_err());
    let snap = router.load();
    assert_eq!(snap.code, "v1");
    assert_eq!(snap.match_it("GET", "/a").unwrap().handler, "h");
}

#[test]
fn host_miss_is_404() {
    let router =
        SwappableAppRouter::try_new("code".to_string(), vec![route("GET", "/a", "h")]).unwrap();
    let state = AppState::new(vec![TenentRouter::new("localhost".to_string(), router)]);
    let err = get_router_by_host("other".to_string(), &state).unwrap_err();
    assert_eq!(err.status_code(), 404);
    assert!(matches!(err, AppError::HostNotFound(h) if h == "other"));
}

#[test]
fn host_lookup_strips_port_suffix() {
    let router =
        SwappableAppRouter::try_new("code".to_string(), vec![route("GET", "/a", "h")]).unwrap();
    let state = AppState::new(vec![TenentRouter::new("localhost".to_string(), router)]);
    let snap = get_router_by_host("localhost:3000".to_string(), &state).unwrap();
    assert_eq!(snap.code, "code");
}

#[test]
fn dispatcher_plans_a_request_end_to_end() {
    let router = SwappableAppRouter::try_new(
        "the-code".to_string(),
        vec![route("GET", "/hello/:name", "greet")],
    )
    .unwrap();
    let state = AppState::new(vec![TenentRouter::new("localhost".to_string(), router)]);
    let plan =
        dino::registry::route_request(&state, "localhost:3000".to_string(), "GET", "/hello/world")
            .unwrap();
    assert_eq!(plan.code, "the-code");
    assert_eq!(plan.handler, "greet");
    assert_eq!(plan.params, vec![("name".to_string(), "world".to_string())]);
    let err =
        dino::registry::route_request(&state, "localhost".to_string(), "POST", "/hello/world")
            .unwrap_err();
    assert_eq!(err.status_code(), 405);
}
