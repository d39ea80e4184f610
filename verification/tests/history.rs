use uptime_monitor::history::{
    append_and_prune_history, compute_24h_buckets, history_stats, prune_all_histories,
    recent_checks, response_times_fit, CheckResult, DeviceHistory,
};

const NOW: u64 = 1_774_621_800;
const DAY: u64 = 86_400;

fn check(epoch_secs: u64, is_up: bool) -> CheckResult {
    CheckResult {
        epoch_secs,
        timestamp: format!("t{epoch_secs}"),
        is_up,
        status_code: if is_up { Some(200) } else { None },
        response_time_ms: if is_up { Some(epoch_secs % 10) } else { None },
        error: if is_up { None } else { Some("down".to_string()) },
    }
}

fn epochs(history: &[CheckResult]) -> Vec<u64> {
    history.iter().map(|c| c.epoch_secs).collect()
}

#[test]
fn old_checks_are_pruned_when_one_is_appended() {
    let history = vec![
        check(NOW - DAY - 1, true),
        check(NOW - DAY, false),
        check(NOW - 5, true),
        check(NOW - DAY - 100, true),
        check(NOW + 5, true),
    ];
    let h = append_and_prune_history(history, NOW, check(NOW, false));
    assert_eq!(epochs(&h), vec![NOW - DAY, NOW - 5, NOW + 5, NOW]);
    assert_eq!(h[3].error.as_deref(), Some("down"));
    assert_eq!(h[3].timestamp, format!("t{NOW}"));
}

#[test]
fn appended_check_stays_even_if_old() {
    let h = append_and_prune_history(vec![], NOW, check(3, true));
    assert_eq!(epochs(&h), vec![3]);
}

#[test]
fn nothing_is_old_in_the_first_day() {
    let h = append_and_prune_history(vec![check(0, true)], DAY - 1, check(5, true));
    assert_eq!(epochs(&h), vec![0, 5]);
    let h = append_and_prune_history(vec![check(0, true)], DAY, check(5, true));
    assert_eq!(epochs(&h), vec![0, 5]);
    let h = append_and_prune_history(vec![check(0, true)], DAY + 1, check(5, true));
    assert_eq!(epochs(&h), vec![5]);
}

#[test]
fn only_changed_histories_are_written_back() {
    let all = vec![
        DeviceHistory { device_id: "a".into(), history: vec![check(NOW, true)] },
        DeviceHistory { device_id: "b".into(), history: vec![check(1, true), check(NOW, false)] },
        DeviceHistory { device_id: "c".into(), history: vec![] },
        DeviceHistory { device_id: "d".into(), history: vec![check(1, true)] },
    ];
    let changed = prune_all_histories(all, NOW);
    assert_eq!(changed.len(), 2);
    assert_eq!(changed[0].device_id, "b");
    assert_eq!(epochs(&changed[0].history), vec![NOW]);
    assert_eq!(changed[1].device_id, "d");
    assert!(changed[1].history.is_empty());
}

#[test]
fn bar_has_288_segments_of_five_minutes() {
    let empty = compute_24h_buckets(&[], NOW);
    assert_eq!(empty, vec![None; 288]);
    let start = NOW - DAY;
    let history = vec![
        check(start - 1, false),
        check(start, true),
        check(start + 299, true),
        check(start + 300, true),
        check(start + 301, false),
        check(start + 302, true),
        check(start + 900, false),
    ];
    let bar = compute_24h_buckets(&history, NOW);
    let mut expected = vec![None; 288];
    expected[0] = Some(true);
    expected[1] = Some(false);
    expected[3] = Some(false);
    assert_eq!(bar, expected);
}

#[test]
fn last_segment_takes_what_comes_after() {
    let history = vec![check(NOW - 1, true), check(NOW, true), check(NOW + 10_000, false)];
    let bar = compute_24h_buckets(&history, NOW);
    assert_eq!(bar[287], Some(false));
    assert!(bar[..287].iter().all(|b| b.is_none()));
}

#[test]
fn bar_near_the_epoch() {
    let bar = compute_24h_buckets(&[check(0, true), check(600, false)], 100);
    assert_eq!(bar[0], Some(true));
    assert_eq!(bar[2], Some(false));
}

#[test]
fn pruning_leaves_the_bar_alone() {
    let history: Vec<CheckResult> =
        (0..400).map(|i| check(NOW - 2 * DAY + i * 500, i % 7 != 0)).collect();
    let pruned = append_and_prune_history(history.clone(), NOW, check(NOW, true));
    let mut whole = history;
    whole.push(check(NOW, true));
    assert_eq!(compute_24h_buckets(&whole, NOW), compute_24h_buckets(&pruned, NOW));
}

#[test]
fn figures_of_a_history() {
    let s = history_stats(&[]);
    assert_eq!((s.checks, s.up, s.down, s.avg_response_ms), (0, 0, 0, None));
    let s = history_stats(&[check(1, false), check(2, false)]);
    assert_eq!((s.checks, s.up, s.down, s.avg_response_ms), (2, 0, 2, None));
    let s = history_stats(&[check(12, true), check(15, true), check(16, false), check(18, true)]);
    assert_eq!((s.checks, s.up, s.down, s.avg_response_ms), (4, 3, 1, Some(5)));
    let mut a = check(1, true);
    a.response_time_ms = Some(3);
    let mut b = check(1, true);
    b.response_time_ms = Some(4);
    assert_eq!(history_stats(&[a, b]).avg_response_ms, Some(3));
}

#[test]
fn response_times_that_overflow() {
    let mut a = check(1, true);
    a.response_time_ms = Some(u64::MAX);
    let b = check(2, false);
    let mut c = check(3, true);
    c.response_time_ms = Some(1);
    assert!(response_times_fit(&[]));
    assert!(response_times_fit(&[a.clone(), b.clone()]));
    assert!(!response_times_fit(&[a, b, c]));
}

#[test]
fn recent_checks_are_the_newest_fifty() {
    let history: Vec<CheckResult> = (0..120u64).map(|i| check((i * 37) % 120, true)).collect();
    let r = recent_checks(&history);
    let expected: Vec<u64> = (70..120).rev().collect();
    assert_eq!(epochs(&r), expected);
}

#[test]
fn recent_checks_of_the_same_second_keep_their_order() {
    let mut history = Vec::new();
    for (i, e) in [5u64, 7, 5, 7, 6, 5, 7].into_iter().enumerate() {
        let mut c = check(e, true);
        c.timestamp = format!("{i}");
        history.push(c);
    }
    let order: Vec<String> = recent_checks(&history).into_iter().map(|c| c.timestamp).collect();
    assert_eq!(order, vec!["1", "3", "6", "4", "0", "2", "5"]);
}

#[test]
fn recent_checks_equal_a_stable_sort() {
    for n in [0u64, 1, 49, 50, 51, 200] {
        let mut history = Vec::new();
        for i in 0..n {
            let mut c = check((i * 7919) % 23, i % 3 == 0);
            c.timestamp = format!("{i}");
            history.push(c);
        }
        let mut sorted = history.clone();
        sorted.sort_by(|a, b| b.epoch_secs.cmp(&a.epoch_secs));
        sorted.truncate(50);
        let expected: Vec<String> = sorted.into_iter().map(|c| c.timestamp).collect();
        let got: Vec<String> = recent_checks(&history).into_iter().map(|c| c.timestamp).collect();
        assert_eq!(got, expected);
    }
}

#[test]
fn a_full_day_of_checks() {
    let history: Vec<CheckResult> = (0..DAY).map(|i| check(NOW - DAY + i, true)).collect();
    assert_eq!(compute_24h_buckets(&history, NOW), vec![Some(true); 288]);
    assert_eq!(recent_checks(&history)[0].epoch_secs, NOW - 1);
    let h = append_and_prune_history(history, NOW + 10, check(NOW + 10, false));
    assert_eq!(h.len(), (DAY - 9) as usize);
}

#[test]
fn pruning_twice_writes_nothing_the_second_time() {
    let all = || {
        vec![
            DeviceHistory { device_id: "a".into(), history: vec![check(1, true)] },
            DeviceHistory {
                device_id: "b".into(),
                history: vec![check(NOW - DAY - 1, true), check(NOW - DAY, false)],
            },
        ]
    };
    let first = prune_all_histories(all(), NOW);
    assert_eq!(first.len(), 2);
    assert!(first[0].history.is_empty());
    assert_eq!(epochs(&first[1].history), vec![NOW - DAY]);
    assert!(prune_all_histories(first, NOW).is_empty());
    assert_eq!(prune_all_histories(prune_all_histories(all(), NOW), NOW + 1).len(), 1);
}
