use uptime_monitor::router::{route, Method, Route};

fn text(r: Route) -> String {
    format!("{r:?}")
}

fn asked(method: Method, path: &str) -> String {
    text(route(&method, Some(path)))
}

#[test]
fn documented_paths() {
    assert_eq!(asked(Method::Get, "/health"), "Health");
    assert_eq!(asked(Method::Get, "/api/devices"), "ListDevices");
    assert_eq!(asked(Method::Post, "/api/devices"), "CreateDevice");
    assert_eq!(asked(Method::Delete, "/api/devices/router"), "DeleteDevice(\"router\")");
    assert_eq!(asked(Method::Get, "/api/metrics"), "AllMetrics");
    assert_eq!(asked(Method::Get, "/api/metrics/router"), "Metrics(\"router\")");
    assert_eq!(asked(Method::Post, "/api/poll"), "PollAll");
    assert_eq!(asked(Method::Post, "/api/poll/router"), "Poll(\"router\")");
    assert_eq!(asked(Method::Get, "/api/dashboard"), "DashboardPage");
    assert_eq!(asked(Method::Get, "/api/dashboard/router"), "DetailPage(\"router\")");
    assert_eq!(asked(Method::Get, "/api/dashboard-data"), "DashboardData");
    assert_eq!(asked(Method::Get, "/api/dashboard-data/router"), "DetailData(\"router\")");
    assert_eq!(asked(Method::Get, "/api/history/router"), "History(\"router\")");
}

#[test]
fn root_and_missing_path_are_health_checks() {
    assert_eq!(asked(Method::Get, ""), "Health");
    assert_eq!(asked(Method::Get, "/"), "Health");
    assert_eq!(asked(Method::Get, "///?x"), "Health");
    assert_eq!(text(route(&Method::Get, None)), "Health");
}

#[test]
fn query_and_trailing_slashes_are_ignored() {
    assert_eq!(asked(Method::Get, "/api/metrics/a//?b=/c"), "Metrics(\"a\")");
    assert_eq!(asked(Method::Get, "/api/devices/"), "ListDevices");
    assert_eq!(asked(Method::Get, "/health?"), "Health");
}

#[test]
fn ids_may_hold_slashes() {
    assert_eq!(asked(Method::Delete, "/api/devices/a/b"), "DeleteDevice(\"a/b\")");
    assert_eq!(asked(Method::Get, "/api/metrics//x"), "Metrics(\"/x\")");
    assert_eq!(asked(Method::Get, "/api/dashboard/é中"), "DetailPage(\"é中\")");
}

#[test]
fn everything_else_is_not_found() {
    assert_eq!(asked(Method::Post, "/health"), "NotFound(\"/health\")");
    assert_eq!(asked(Method::Delete, "/api/devices/"), "NotFound(\"/api/devices\")");
    assert_eq!(asked(Method::Get, "/api/devices/router"), "NotFound(\"/api/devices/router\")");
    assert_eq!(asked(Method::Get, "/api/history"), "NotFound(\"/api/history\")");
    assert_eq!(asked(Method::Get, "/api/poll"), "NotFound(\"/api/poll\")");
    assert_eq!(asked(Method::Get, "/api/dashboards"), "NotFound(\"/api/dashboards\")");
    assert_eq!(asked(Method::Put, "/api/devices/?q"), "NotFound(\"/api/devices\")");
    assert_eq!(asked(Method::Head, "/"), "NotFound(\"\")");
    assert_eq!(asked(Method::Patch, "/x"), "NotFound(\"/x\")");
    assert_eq!(asked(Method::Connect, "/x"), "NotFound(\"/x\")");
    assert_eq!(asked(Method::Options, "/x"), "NotFound(\"/x\")");
    assert_eq!(asked(Method::Trace, "/x"), "NotFound(\"/x\")");
    assert_eq!(asked(Method::Other("GET".to_string()), "/health"), "NotFound(\"/health\")");
}
