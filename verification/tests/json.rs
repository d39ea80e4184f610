use uptime_monitor::json::{deleted_json, error_json, health_json};

#[test]
fn error_body_is_pretty_json() {
    let body = error_json("device 'x' not found");
    assert_eq!(
        String::from_utf8(body).unwrap(),
        "{\n  \"error\": \"device 'x' not found\"\n}"
    );
}

#[test]
fn error_messages_are_escaped() {
    let message = "a \"b\" \\ \n \u{1} é 😀";
    let value: serde_json::Value = serde_json::from_slice(&error_json(message)).unwrap();
    assert_eq!(value["error"], message);
    assert_eq!(value.as_object().unwrap().len(), 1);
}

#[test]
fn deleted_body_names_the_device() {
    assert_eq!(
        String::from_utf8(deleted_json("living-room-router")).unwrap(),
        "{\n  \"deleted\": \"living-room-router\"\n}"
    );
}

#[test]
fn health_body_names_component_and_version() {
    assert_eq!(
        String::from_utf8(health_json("0.1.0")).unwrap(),
        "{\n  \"component\": \"uptime-monitor\",\n  \"status\": \"healthy\",\n  \"version\": \"0.1.0\"\n}"
    );
}
