use uptime_monitor::device::{CreateDeviceRequest, Device, DeviceMap};
use uptime_monitor::handler::{
    begin, body_read, devices_loaded, polled, records_loaded, register_device, Answer, Body, Step,
};
use uptime_monitor::history::CheckResult;
use uptime_monitor::metrics::{DeviceMetrics, Percentage};
use uptime_monitor::router::Route;
use uptime_monitor::store::Write;

const NOW: u64 = 1_774_621_800;

fn device(id: &str) -> Device {
    Device {
        id: id.to_string(),
        name: format!("Name of {id}"),
        url: format!("http://{id}/"),
        expected_status: 200,
    }
}

fn register(ids: &[&str]) -> DeviceMap {
    let mut m = DeviceMap::new();
    for id in ids {
        m.insert(id.to_string(), device(id));
    }
    m
}

fn check(epoch_secs: u64, is_up: bool) -> CheckResult {
    CheckResult {
        epoch_secs,
        timestamp: "t".to_string(),
        is_up,
        status_code: None,
        response_time_ms: if is_up { Some(10) } else { None },
        error: None,
    }
}

fn error_of(a: &Answer) -> String {
    match &a.body {
        Body::Json(bytes) => {
            let v: serde_json::Value = serde_json::from_slice(bytes).unwrap();
            v["error"].as_str().unwrap().to_string()
        }
        _ => panic!("no error"),
    }
}

fn answer(step: Step) -> Answer {
    match step {
        Step::Answer(a) => a,
        _ => panic!("no answer yet"),
    }
}

#[test]
fn health_is_answered_at_once() {
    let a = answer(begin(&Route::Health, "1.2.3"));
    assert_eq!(a.status, 200);
    assert!(a.writes.is_empty());
    assert_eq!(a.body.content_type(), "application/json");
    match a.body {
        Body::Json(bytes) => {
            let v: serde_json::Value = serde_json::from_slice(&bytes).unwrap();
            assert_eq!(v["status"], "healthy");
            assert_eq!(v["component"], "uptime-monitor");
            assert_eq!(v["version"], "1.2.3");
        }
        _ => panic!(),
    }
}

#[test]
fn unknown_paths_are_refused() {
    let a = answer(begin(&Route::NotFound("/x/y".to_string()), ""));
    assert_eq!(a.status, 404);
    assert!(a.writes.is_empty());
    assert_eq!(error_of(&a), "not found: /x/y");
}

#[test]
fn first_steps() {
    assert!(matches!(begin(&Route::CreateDevice, ""), Step::ReadBody));
    for r in [Route::ListDevices, Route::PollAll, Route::Metrics("a".to_string())] {
        assert!(matches!(begin(&r, ""), Step::LoadDevices));
    }
}

fn request(id: &str, name: &str, url: &str) -> CreateDeviceRequest {
    CreateDeviceRequest {
        id: id.to_string(),
        name: name.to_string(),
        url: url.to_string(),
        expected_status: 204,
    }
}

#[test]
fn bad_registrations_are_refused() {
    let a = body_read(Err("EOF while parsing".to_string())).err().unwrap();
    assert_eq!(a.status, 400);
    assert_eq!(error_of(&a), "invalid JSON: EOF while parsing");
    for r in [request("", "n", "u"), request("i", "", "u"), request("i", "n", "")] {
        let a = body_read(Ok(r)).err().unwrap();
        assert_eq!(a.status, 400);
        assert!(a.writes.is_empty());
        assert_eq!(error_of(&a), "id, name, and url are required");
    }
}

#[test]
fn a_registration_is_saved() {
    let d = body_read(Ok(request("i", "n", "u"))).ok().unwrap();
    assert_eq!((d.id.as_str(), d.name.as_str(), d.url.as_str()), ("i", "n", "u"));
    assert_eq!(d.expected_status, 204);
    let a = register_device(register(&["a", "z"]), d);
    assert_eq!(a.status, 201);
    assert!(matches!(&a.body, Body::Device(d) if d.id == "i" && d.expected_status == 204));
    assert_eq!(a.writes.len(), 1);
    match &a.writes[0] {
        Write::SaveDevices(m) => {
            assert_eq!(m.keys(), vec!["a", "i", "z"]);
            assert_eq!(m.get("i").unwrap().url, "u");
        }
        _ => panic!(),
    }
}

#[test]
fn devices_are_listed() {
    let a = answer(devices_loaded(&Route::ListDevices, register(&["b", "a"])));
    assert_eq!(a.status, 200);
    assert!(matches!(&a.body, Body::Devices(l) if l.len() == 2 && l[0].id == "a"));
}

#[test]
fn deletion() {
    let a = answer(devices_loaded(&Route::DeleteDevice("b".into()), register(&["a", "b"])));
    assert_eq!(a.status, 200);
    assert_eq!(a.writes.len(), 3);
    assert!(matches!(&a.writes[0], Write::SaveDevices(m) if m.keys() == vec!["a"]));
    assert!(matches!(&a.writes[1], Write::Delete(k) if k == "uptime:metrics:b"));
    assert!(matches!(&a.writes[2], Write::Delete(k) if k == "uptime:history:b"));
    match a.body {
        Body::Json(bytes) => assert_eq!(bytes, b"{\n  \"deleted\": \"b\"\n}".to_vec()),
        _ => panic!(),
    }
}

#[test]
fn registered_then_deleted() {
    let before = register(&["a", "c"]);
    let a = register_device(before.clone(), device("b"));
    let registered = match &a.writes[0] {
        Write::SaveDevices(m) => m.clone(),
        _ => panic!(),
    };
    let a = answer(devices_loaded(&Route::DeleteDevice("b".into()), registered));
    match &a.writes[0] {
        Write::SaveDevices(m) => {
            assert_eq!(m.keys(), before.keys());
            let a = answer(devices_loaded(&Route::Metrics("b".into()), m.clone()));
            assert_eq!(a.status, 404);
        }
        _ => panic!(),
    }
}

#[test]
fn unregistered_devices_are_refused() {
    for r in [
        Route::DeleteDevice("x".into()),
        Route::Metrics("x".into()),
        Route::History("x".into()),
        Route::Poll("x".into()),
        Route::DetailData("x".into()),
        Route::DetailPage("x".into()),
    ] {
        let a = answer(devices_loaded(&r, register(&["a"])));
        assert_eq!(a.status, 404);
        assert!(a.writes.is_empty());
        assert_eq!(error_of(&a), "device 'x' not found");
    }
}

fn wanted(route: &Route, devices: DeviceMap) -> (Vec<String>, Vec<String>) {
    match devices_loaded(route, devices) {
        Step::LoadRecords { metrics_of, histories_of } => (metrics_of, histories_of),
        _ => panic!("no records wanted"),
    }
}

#[test]
fn records_are_asked_for() {
    let none: Vec<String> = vec![];
    let ab = vec!["a".to_string(), "b".to_string()];
    let a = vec!["a".to_string()];
    let m = || register(&["b", "a"]);
    assert_eq!(wanted(&Route::AllMetrics, m()), (ab.clone(), none.clone()));
    assert_eq!(wanted(&Route::DashboardData, m()), (ab.clone(), ab.clone()));
    assert_eq!(wanted(&Route::DashboardPage, m()), (ab.clone(), ab.clone()));
    assert_eq!(wanted(&Route::Metrics("a".into()), m()), (a.clone(), none.clone()));
    assert_eq!(wanted(&Route::History("a".into()), m()), (none, a.clone()));
    assert_eq!(wanted(&Route::DetailData("a".into()), m()), (a.clone(), a.clone()));
    assert_eq!(wanted(&Route::DetailPage("a".into()), m()), (a.clone(), a));
}

#[test]
fn polls_are_asked_for() {
    match devices_loaded(&Route::PollAll, register(&["b", "a"])) {
        Step::Poll { prune, devices } => {
            assert_eq!(prune, vec!["a", "b"]);
            let ids: Vec<String> = devices.into_iter().map(|d| d.id).collect();
            assert_eq!(ids, vec!["a", "b"]);
        }
        _ => panic!(),
    }
    match devices_loaded(&Route::Poll("b".into()), register(&["b", "a"])) {
        Step::Poll { prune, devices } => {
            assert!(prune.is_empty());
            assert_eq!(devices.len(), 1);
            assert_eq!(devices[0].id, "b");
        }
        _ => panic!(),
    }
}

#[test]
fn polls_are_answered_with_metrics() {
    let a = polled(&Route::PollAll, vec![DeviceMetrics::new("a"), DeviceMetrics::new("b")]);
    assert_eq!(a.status, 200);
    assert!(matches!(&a.body, Body::MetricsList(l) if l.len() == 2 && l[1].device_id == "b"));
    let a = polled(&Route::Poll("a".into()), vec![DeviceMetrics::new("a")]);
    assert!(matches!(&a.body, Body::Metrics(m) if m.device_id == "a"));
}

#[test]
fn metrics_and_history_are_answered() {
    let devices = register(&["a"]);
    let a = records_loaded(
        &Route::AllMetrics,
        &devices,
        vec![DeviceMetrics::new("a")],
        vec![],
        NOW,
    );
    assert!(matches!(&a.body, Body::MetricsList(l) if l.len() == 1));
    let a = records_loaded(
        &Route::Metrics("a".into()),
        &devices,
        vec![DeviceMetrics::new("a")],
        vec![],
        NOW,
    );
    assert!(matches!(&a.body, Body::Metrics(m) if m.device_id == "a"));
    let a = records_loaded(
        &Route::History("a".into()),
        &devices,
        vec![],
        vec![vec![check(1, true), check(2, false)]],
        NOW,
    );
    assert!(matches!(&a.body, Body::History(h) if h.len() == 2 && h[1].epoch_secs == 2));
    assert_eq!(a.status, 200);
    assert!(a.writes.is_empty());
}

#[test]
fn dashboard_lists_devices_in_order() {
    let mut devices = register(&["b"]);
    devices.insert("a".to_string(), device("other-id"));
    let mut m = DeviceMetrics::new("b");
    m.record_success(200, 9, "T");
    let lists = || {
        (
            vec![DeviceMetrics::new("a"), m.clone()],
            vec![vec![], vec![check(NOW - 1, true)]],
        )
    };
    let (l, h) = lists();
    let a = records_loaded(&Route::DashboardData, &devices, l, h, NOW);
    assert_eq!(a.body.content_type(), "application/json");
    match a.body {
        Body::DashboardData(list) => {
            assert_eq!(list.len(), 2);
            assert_eq!(list[0].id, "other-id");
            assert!(!list[0].is_up);
            assert_eq!(list[0].last_checked, "never");
            assert_eq!(list[0].bar, vec![None; 288]);
            assert_eq!(list[1].id, "b");
            assert_eq!(list[1].name, "Name of b");
            assert_eq!(list[1].url, "http://b/");
            assert!(list[1].is_up);
            assert_eq!(list[1].uptime_percentage, Percentage::Share { part: 1, whole: 1 });
            assert_eq!(list[1].response_time_ms, Some(9));
            assert_eq!(list[1].bar[287], Some(true));
        }
        _ => panic!(),
    }
    let (l, h) = lists();
    let a = records_loaded(&Route::DashboardPage, &devices, l, h, NOW);
    assert_eq!(a.body.content_type(), "text/html; charset=utf-8");
    match a.body {
        Body::DashboardPage(rows) => {
            assert_eq!(rows.len(), 2);
            assert_eq!(rows[0].id, "a");
            assert_eq!(rows[0].name, "Name of other-id");
            assert_eq!(rows[1].id, "b");
            assert_eq!(rows[1].bar[287], Some(true));
        }
        _ => panic!(),
    }
}

#[test]
fn details_of_a_device() {
    let devices = register(&["a"]);
    let mut m = DeviceMetrics::new("a");
    m.record_failure("e", "T");
    m.record_failure("e", "T");
    let history = vec![check(NOW - 30, true), check(NOW - 10, false), check(NOW - 20, true)];
    let a = records_loaded(
        &Route::DetailData("a".into()),
        &devices,
        vec![m.clone()],
        vec![history.clone()],
        NOW,
    );
    let data = match a.body {
        Body::DetailData(d) => d,
        _ => panic!(),
    };
    assert_eq!(data.id, "a");
    assert!(!data.is_up);
    assert_eq!(data.uptime_24h, Percentage::Share { part: 2, whole: 3 });
    assert_eq!(data.uptime_all, Percentage::Share { part: 0, whole: 2 });
    assert_eq!(data.avg_response_ms, Some(10));
    assert_eq!((data.checks_24h, data.down_24h), (3, 1));
    assert_eq!(data.consecutive_failures, 2);
    assert_eq!(data.total_checks, 2);
    let order: Vec<u64> = data.recent_checks.iter().map(|c| c.epoch_secs).collect();
    assert_eq!(order, vec![NOW - 10, NOW - 20, NOW - 30]);
    let a = records_loaded(
        &Route::DetailPage("a".into()),
        &devices,
        vec![m],
        vec![history],
        NOW,
    );
    assert_eq!(a.body.content_type(), "text/html; charset=utf-8");
    match a.body {
        Body::DetailPage(d) => assert_eq!(format!("{d:?}"), format!("{data:?}")),
        _ => panic!(),
    }
}

#[test]
fn details_without_checks() {
    let a = records_loaded(
        &Route::DetailData("a".into()),
        &register(&["a"]),
        vec![DeviceMetrics::new("a")],
        vec![vec![]],
        NOW,
    );
    match a.body {
        Body::DetailData(d) => {
            assert_eq!(d.uptime_24h, Percentage::Bits(0));
            assert_eq!(d.avg_response_ms, None);
            assert!(d.recent_checks.is_empty());
        }
        _ => panic!(),
    }
}
