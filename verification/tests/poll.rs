use uptime_monitor::device::{Device, DeviceMap};
use uptime_monitor::history::CheckResult;
use uptime_monitor::metrics::{DeviceMetrics, Percentage};
use uptime_monitor::poll::{
    begin_poll, counters_have_room, poll_step, record_poll, FutureReply, Outcome, PollEvent,
    PollState,
};
use uptime_monitor::store::Write;
use uptime_monitor::url::Scheme;

fn device(url: &str) -> Device {
    Device {
        id: "nas".to_string(),
        name: "NAS".to_string(),
        url: url.to_string(),
        expected_status: 200,
    }
}

fn ready(status: u16, elapsed_millis: u128) -> PollEvent {
    PollEvent::Replied(FutureReply::Ready { status, elapsed_millis })
}

fn text(s: &PollState) -> String {
    format!("{s:?}")
}

#[test]
fn request_for_a_device() {
    match begin_poll(&device("https://nas:5000/x?y")) {
        PollState::Send(c) => {
            assert_eq!(c.scheme, Scheme::Https);
            assert_eq!(c.authority, "nas:5000");
            assert_eq!(c.path, "/x?y");
        }
        other => panic!("{other:?}"),
    }
    assert_eq!(text(&begin_poll(&device("nas"))), "Settled(InvalidUrl)");
}

#[test]
fn answered_at_once() {
    let s = begin_poll(&device("http://nas/"));
    let s = poll_step(s, PollEvent::Sent);
    assert_eq!(text(&s), "Look");
    let s = poll_step(s, ready(200, 12));
    assert_eq!(text(&s), "Settled(Answered { status: 200, elapsed_millis: 12 })");
}

#[test]
fn answered_after_waiting() {
    let s = poll_step(PollState::Look, PollEvent::Replied(FutureReply::Pending));
    assert_eq!(text(&s), "Wait");
    let s = poll_step(s, ready(503, 40));
    assert_eq!(text(&s), "Settled(Answered { status: 503, elapsed_millis: 40 })");
}

#[test]
fn anything_else_after_waiting_is_a_timeout() {
    for reply in [
        FutureReply::Pending,
        FutureReply::Failed,
        FutureReply::HttpError("e".to_string()),
    ] {
        let s = poll_step(PollState::Wait, PollEvent::Replied(reply));
        assert_eq!(text(&s), "Settled(Timeout)");
    }
}

#[test]
fn failures_at_once() {
    let s = poll_step(begin_poll(&device("http://nas/")), PollEvent::SendFailed("e".into()));
    assert_eq!(text(&s), "Settled(RequestFailed(\"e\"))");
    let s = poll_step(PollState::Look, PollEvent::Replied(FutureReply::HttpError("e".into())));
    assert_eq!(text(&s), "Settled(HttpError(\"e\"))");
    let s = poll_step(PollState::Look, PollEvent::Replied(FutureReply::Failed));
    assert_eq!(text(&s), "Settled(FutureError)");
}

#[test]
fn events_out_of_place_change_nothing() {
    assert_eq!(text(&poll_step(PollState::Look, PollEvent::Sent)), "Look");
    let s = poll_step(PollState::Settled(Outcome::Timeout), ready(200, 1));
    assert_eq!(text(&s), "Settled(Timeout)");
    let s = poll_step(begin_poll(&device("http://nas/")), ready(200, 1));
    assert!(matches!(s, PollState::Send(_)));
}

fn recorded(d: &Device, outcome: Outcome) -> (DeviceMetrics, CheckResult, bool) {
    let old = CheckResult {
        epoch_secs: 5,
        timestamp: "old".to_string(),
        is_up: true,
        status_code: None,
        response_time_ms: None,
        error: None,
    };
    let mut kept = old.clone();
    kept.epoch_secs = 200_000;
    kept.timestamp = "kept".to_string();
    let r = record_poll(
        d,
        DeviceMetrics::new("nas"),
        vec![old, kept],
        &outcome,
        "T",
        200_001,
        200_002,
    );
    assert_eq!(r.writes.len(), 2);
    let metrics_first = matches!(r.writes[0], Write::SaveMetrics(_));
    let (m, h) = if metrics_first { (0, 1) } else { (1, 0) };
    match &r.writes[m] {
        Write::SaveMetrics(saved) => {
            assert_eq!(format!("{saved:?}"), format!("{:?}", r.metrics));
        }
        _ => panic!("no metrics"),
    }
    let check = match &r.writes[h] {
        Write::SaveHistory(saved) => {
            assert_eq!(saved.device_id, "nas");
            assert_eq!(saved.history.len(), 2);
            assert_eq!(saved.history[0].timestamp, "kept");
            saved.history[1].clone()
        }
        _ => panic!("no history"),
    };
    assert_eq!(check.epoch_secs, 200_001);
    assert_eq!(check.timestamp, "T");
    assert_eq!(r.metrics.last_checked, "T");
    assert_eq!(r.metrics.total_checks, 1);
    assert_eq!(check.is_up, r.metrics.is_up);
    (r.metrics, check, metrics_first)
}

#[test]
fn expected_answer_is_recorded_as_up() {
    let d = device("http://nas/");
    let (m, c, first) = recorded(&d, Outcome::Answered { status: 200, elapsed_millis: 34 });
    assert!(!first);
    assert!(m.is_up && c.is_up);
    assert_eq!((m.last_status_code, c.status_code), (Some(200), Some(200)));
    assert_eq!((m.response_time_ms, c.response_time_ms), (Some(34), Some(34)));
    assert_eq!((m.last_error, c.error), (None, None));
    assert_eq!(m.uptime_percentage, Percentage::Share { part: 1, whole: 1 });
}

#[test]
fn other_answer_is_recorded_as_down() {
    let d = device("http://nas/");
    let (m, c, first) = recorded(&d, Outcome::Answered { status: 404, elapsed_millis: 3 });
    assert!(!first);
    assert!(!m.is_up);
    assert_eq!((m.last_status_code, c.status_code), (Some(404), Some(404)));
    assert_eq!((m.response_time_ms, c.response_time_ms), (Some(3), Some(3)));
    assert_eq!(m.last_error.as_deref(), Some("unexpected status: got 404, expected 200"));
    assert_eq!(c.error.as_deref(), Some("expected 200, got 404"));
    assert_eq!(m.consecutive_failures, 1);
}

#[test]
fn failures_are_recorded_with_their_texts() {
    let d = device("nas");
    let cases = [
        (Outcome::InvalidUrl, "invalid URL: nas", true),
        (Outcome::HttpError("X".into()), "HTTP error: X", true),
        (Outcome::FutureError, "response future error", true),
        (Outcome::Timeout, "timeout waiting for response", true),
        (Outcome::RequestFailed("Y".into()), "request failed: Y", false),
    ];
    for (outcome, error, metrics_first) in cases {
        let (m, c, first) = recorded(&d, outcome);
        assert_eq!(first, metrics_first);
        assert!(!m.is_up);
        assert_eq!(m.last_error.as_deref(), Some(error));
        assert_eq!(c.error.as_deref(), Some(error));
        assert_eq!((m.last_status_code, c.status_code), (None, None));
        assert_eq!((m.response_time_ms, c.response_time_ms), (None, None));
    }
}

#[test]
fn elapsed_time_is_cut_to_64_bits() {
    let d = device("http://nas/");
    let (_, c, _) = recorded(&d, Outcome::Answered { status: 200, elapsed_millis: (1 << 64) + 5 });
    assert_eq!(c.response_time_ms, Some(5));
}

#[test]
fn room_in_the_counters() {
    let d = device("http://nas/");
    let up = Outcome::Answered { status: 200, elapsed_millis: 1 };
    let down = Outcome::Timeout;
    let other = Outcome::Answered { status: 500, elapsed_millis: 1 };
    let room = |m: &DeviceMetrics| {
        (
            counters_have_room(&d, m, &up),
            counters_have_room(&d, m, &down),
            counters_have_room(&d, m, &other),
        )
    };
    let mut m = DeviceMetrics::new("nas");
    assert_eq!(room(&m), (true, true, true));
    m.consecutive_failures = u32::MAX;
    assert_eq!(room(&m), (true, false, false));
    m.consecutive_failures = 0;
    m.total_up = u64::MAX;
    assert_eq!(room(&m), (false, true, true));
    m.total_up = 0;
    m.total_down = u64::MAX;
    assert_eq!(room(&m), (true, false, false));
    m.total_down = 0;
    m.total_checks = u64::MAX;
    assert_eq!(room(&m), (false, false, false));
}

#[test]
fn polling_all_devices_records_one_check_for_each() {
    let mut register = DeviceMap::new();
    for id in ["b", "a", "c"] {
        let mut d = device("http://host/");
        d.id = id.to_string();
        register.insert(id.to_string(), d);
    }
    let mut metrics: Vec<DeviceMetrics> =
        register.keys().iter().map(|id| DeviceMetrics::new(id)).collect();
    metrics[1].total_checks = 7;
    metrics[1].total_up = 7;
    let mut keys = Vec::new();
    for (i, d) in register.values().iter().enumerate() {
        let outcome = Outcome::Answered { status: 200, elapsed_millis: i as u128 };
        let known = metrics[i].clone();
        let r = record_poll(d, known, Vec::new(), &outcome, "t", 100, 100);
        assert_eq!(r.metrics.device_id, d.id);
        assert_eq!(r.metrics.total_checks, metrics[i].total_checks + 1);
        for w in &r.writes {
            keys.push(w.key());
            if let Write::SaveHistory(h) = w {
                assert_eq!(h.history.len(), 1);
                assert_eq!(h.history[0].response_time_ms, Some(i as u64));
            }
        }
    }
    assert_eq!(
        keys,
        vec![
            "uptime:history:a",
            "uptime:metrics:a",
            "uptime:history:b",
            "uptime:metrics:b",
            "uptime:history:c",
            "uptime:metrics:c",
        ]
    );
}
