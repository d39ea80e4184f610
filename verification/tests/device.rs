use uptime_monitor::device::{default_expected_status, Device, DeviceMap};

fn device(id: &str, name: &str) -> Device {
    Device {
        id: id.to_string(),
        name: name.to_string(),
        url: format!("http://{id}/"),
        expected_status: 200,
    }
}

#[test]
fn expected_status_is_ok() {
    assert_eq!(default_expected_status(), 200);
}

#[test]
fn empty_register() {
    let m = DeviceMap::new();
    assert!(m.keys().is_empty());
    assert!(m.values().is_empty());
    assert!(m.get("x").is_none());
    assert!(!m.contains_key(""));
}

#[test]
fn register_is_in_key_order() {
    let mut m = DeviceMap::new();
    for id in ["pi", "nas", "router", "a", "é", "Z"] {
        m.insert(id.to_string(), device(id, "n"));
    }
    let mut expected = vec!["pi", "nas", "router", "a", "é", "Z"];
    expected.sort();
    assert_eq!(m.keys(), expected);
    let ids: Vec<String> = m.values().into_iter().map(|d| d.id).collect();
    assert_eq!(ids, expected);
}

#[test]
fn inserting_again_replaces() {
    let mut m = DeviceMap::new();
    m.insert("a".to_string(), device("a", "first"));
    m.insert("b".to_string(), device("b", "other"));
    m.insert("a".to_string(), device("a", "second"));
    assert_eq!(m.keys(), vec!["a", "b"]);
    assert_eq!(m.get("a").unwrap().name, "second");
    assert_eq!(m.get("b").unwrap().name, "other");
}

#[test]
fn key_and_id_may_differ() {
    let mut m = DeviceMap::new();
    m.insert("key".to_string(), device("id", "n"));
    assert!(m.contains_key("key"));
    assert!(!m.contains_key("id"));
    assert_eq!(m.get("key").unwrap().id, "id");
}

#[test]
fn removing() {
    let mut m = DeviceMap::new();
    m.insert("a".to_string(), device("a", "A"));
    m.insert("b".to_string(), device("b", "B"));
    m.insert("c".to_string(), device("c", "C"));
    assert!(!m.remove("x"));
    assert_eq!(m.keys(), vec!["a", "b", "c"]);
    assert!(m.remove("b"));
    assert!(!m.remove("b"));
    assert_eq!(m.keys(), vec!["a", "c"]);
    assert_eq!(m.get("c").unwrap().name, "C");
}

#[test]
fn clone_is_independent() {
    let mut m = DeviceMap::new();
    m.insert("a".to_string(), device("a", "A"));
    let mut copy = m.clone();
    copy.remove("a");
    assert!(m.contains_key("a"));
    assert!(!copy.contains_key("a"));
}
