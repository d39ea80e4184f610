use uptime_monitor::device::{Device, DeviceMap};
use uptime_monitor::history::{CheckResult, DeviceHistory};
use uptime_monitor::metrics::DeviceMetrics;
use uptime_monitor::store::{
    delete_history, delete_metrics, history_key, load_devices, load_history, load_metrics,
    metrics_key, Write, KV_BACKEND, KV_DEVICES_KEY,
};

#[test]
fn key_texts() {
    assert_eq!(KV_BACKEND, "in_memory");
    assert_eq!(KV_DEVICES_KEY, "uptime:devices");
    assert_eq!(metrics_key("router"), "uptime:metrics:router");
    assert_eq!(history_key("router"), "uptime:history:router");
}

#[test]
fn deletions_name_their_keys() {
    assert!(matches!(delete_metrics("a"), Write::Delete(k) if k == "uptime:metrics:a"));
    assert!(matches!(delete_history("a"), Write::Delete(k) if k == "uptime:history:a"));
    assert_eq!(delete_history("b").key(), "uptime:history:b");
}

#[test]
fn writes_know_their_keys() {
    assert_eq!(Write::SaveDevices(DeviceMap::new()).key(), "uptime:devices");
    assert_eq!(Write::SaveMetrics(DeviceMetrics::new("x")).key(), "uptime:metrics:x");
    let h = DeviceHistory { device_id: "y".to_string(), history: vec![] };
    assert_eq!(Write::SaveHistory(h).key(), "uptime:history:y");
}

#[test]
fn nothing_stored() {
    assert!(load_devices(None).keys().is_empty());
    let m = load_metrics("x", None);
    assert_eq!(m.device_id, "x");
    assert_eq!(m.last_checked, "never");
    assert!(load_history(None).is_empty());
}

#[test]
fn stored_values_are_used() {
    let mut devices = DeviceMap::new();
    devices.insert(
        "a".to_string(),
        Device {
            id: "a".to_string(),
            name: "A".to_string(),
            url: "http://a/".to_string(),
            expected_status: 204,
        },
    );
    assert_eq!(load_devices(Some(devices)).get("a").unwrap().expected_status, 204);
    let mut m = DeviceMetrics::new("y");
    m.total_checks = 5;
    let m = load_metrics("x", Some(m));
    assert_eq!((m.device_id.as_str(), m.total_checks), ("y", 5));
    let c = CheckResult {
        epoch_secs: 7,
        timestamp: "t".to_string(),
        is_up: true,
        status_code: None,
        response_time_ms: None,
        error: None,
    };
    assert_eq!(load_history(Some(vec![c]))[0].epoch_secs, 7);
}
