use uptime_monitor::service::{count_round, POLL_INTERVAL_SECS};

#[test]
fn histories_are_pruned_every_minute() {
    assert_eq!(POLL_INTERVAL_SECS, 1);
    let mut rounds = 0u64;
    let mut pruned = Vec::new();
    for _ in 0..181 {
        let (next, prune) = count_round(rounds);
        assert_eq!(next, rounds + 1);
        rounds = next;
        if prune {
            pruned.push(rounds);
        }
    }
    assert_eq!(pruned, vec![60, 120, 180]);
}
