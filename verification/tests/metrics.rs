use uptime_monitor::metrics::{DeviceMetrics, Percentage};

#[test]
fn new_metrics() {
    let m = DeviceMetrics::new("router");
    assert_eq!(m.device_id, "router");
    assert!(!m.is_up);
    assert_eq!(m.last_status_code, None);
    assert_eq!(m.last_checked, "never");
    assert_eq!(m.response_time_ms, None);
    assert_eq!((m.total_checks, m.total_up, m.total_down), (0, 0, 0));
    assert_eq!(m.uptime_percentage, Percentage::Bits(0));
    assert_eq!(m.last_error, None);
    assert_eq!(m.consecutive_failures, 0);
}

#[test]
fn success() {
    let mut m = DeviceMetrics::new("router");
    m.record_failure("x", "t0");
    m.record_success(204, 12, "t1");
    assert!(m.is_up);
    assert_eq!(m.last_status_code, Some(204));
    assert_eq!(m.last_checked, "t1");
    assert_eq!(m.response_time_ms, Some(12));
    assert_eq!((m.total_checks, m.total_up, m.total_down), (2, 1, 1));
    assert_eq!(m.uptime_percentage, Percentage::Share { part: 1, whole: 2 });
    assert_eq!(m.last_error, None);
    assert_eq!(m.consecutive_failures, 0);
}

#[test]
fn failure() {
    let mut m = DeviceMetrics::new("router");
    m.record_success(200, 5, "t0");
    m.record_failure("request failed: x", "t1");
    m.record_failure("HTTP error: y", "t2");
    assert!(!m.is_up);
    assert_eq!(m.last_status_code, None);
    assert_eq!(m.last_checked, "t2");
    assert_eq!(m.response_time_ms, None);
    assert_eq!((m.total_checks, m.total_up, m.total_down), (3, 1, 2));
    assert_eq!(m.uptime_percentage, Percentage::Share { part: 1, whole: 3 });
    assert_eq!(m.last_error.as_deref(), Some("HTTP error: y"));
    assert_eq!(m.consecutive_failures, 2);
}

#[test]
fn unexpected_status() {
    let mut m = DeviceMetrics::new("router");
    m.record_unexpected_status(503, 200, 7, "t");
    assert!(!m.is_up);
    assert_eq!(m.last_status_code, Some(503));
    assert_eq!(m.response_time_ms, Some(7));
    assert_eq!(m.last_error.as_deref(), Some("unexpected status: got 503, expected 200"));
    assert_eq!((m.total_checks, m.total_up, m.total_down), (1, 0, 1));
    assert_eq!(m.consecutive_failures, 1);
}

#[test]
fn uptime_without_checks_is_left_alone() {
    let mut m = DeviceMetrics::new("router");
    m.uptime_percentage = Percentage::Bits(42);
    m.recalculate_uptime();
    assert_eq!(m.uptime_percentage, Percentage::Bits(42));
    m.total_checks = 4;
    m.total_up = 3;
    m.recalculate_uptime();
    assert_eq!(m.uptime_percentage, Percentage::Share { part: 3, whole: 4 });
}

#[test]
fn counters_agree_after_many_checks() {
    let mut m = DeviceMetrics::new("router");
    for i in 0..288u64 {
        if i % 96 == 5 {
            m.record_failure("down", "t");
        } else {
            m.record_success(200, i, "t");
        }
        assert_eq!(m.total_checks, i + 1);
        assert_eq!(m.total_checks, m.total_up + m.total_down);
        assert_eq!(m.is_up, m.consecutive_failures == 0);
        assert_eq!(m.is_up, m.last_error.is_none());
    }
    assert_eq!(m.total_up, 285);
    assert_eq!(m.total_down, 3);
}

#[test]
fn counters_go_on_from_a_stored_percentage() {
    let mut m = DeviceMetrics::new("router");
    m.record_success(200, 5, "t0");
    m.uptime_percentage = Percentage::Bits(100.0f64.to_bits());
    m.record_failure("x", "t1");
    assert_eq!((m.total_checks, m.total_up, m.total_down), (2, 1, 1));
    assert_eq!(m.uptime_percentage, Percentage::Share { part: 1, whole: 2 });
    m.uptime_percentage = Percentage::Bits(50.0f64.to_bits());
    m.record_success(200, 5, "t2");
    assert_eq!((m.total_checks, m.total_up, m.total_down), (3, 2, 1));
    assert_eq!(m.uptime_percentage, Percentage::Share { part: 2, whole: 3 });
    assert_eq!(m.consecutive_failures, 0);
}

#[test]
fn a_success_needs_no_room_for_failures() {
    let mut m = DeviceMetrics::new("router");
    m.total_down = u64::MAX;
    m.consecutive_failures = u32::MAX;
    m.record_success(200, 5, "t0");
    assert_eq!((m.total_checks, m.total_up, m.total_down), (1, 1, u64::MAX));
    assert_eq!(m.consecutive_failures, 0);
}
