use uptime_monitor::calendar::{
    epoch_days_to_date, epoch_secs_of, now_epoch_secs, now_timestamp, timestamp_of,
};

#[test]
fn epoch_is_the_first_of_january_1970() {
    assert_eq!(epoch_days_to_date(0), (1970, 1, 1));
    assert_eq!(epoch_days_to_date(1), (1970, 1, 2));
    assert_eq!(epoch_days_to_date(31), (1970, 2, 1));
    assert_eq!(epoch_days_to_date(365), (1971, 1, 1));
}

#[test]
fn leap_days_are_counted() {
    assert_eq!(epoch_days_to_date(11016), (2000, 2, 29));
    assert_eq!(epoch_days_to_date(11017), (2000, 3, 1));
    assert_eq!(epoch_days_to_date(19782), (2024, 2, 29));
    assert_eq!(epoch_days_to_date(19783), (2024, 3, 1));
    assert_eq!(epoch_days_to_date(47540), (2100, 2, 28));
    assert_eq!(epoch_days_to_date(47541), (2100, 3, 1));
    assert_eq!(epoch_days_to_date(20088), (2024, 12, 31));
    assert_eq!(epoch_days_to_date(20089), (2025, 1, 1));
}

#[test]
fn dates_follow_each_other_for_eight_centuries() {
    let month_len = |y: u64, m: u64| match m {
        2 if y % 4 == 0 && (y % 100 != 0 || y % 400 == 0) => 29,
        2 => 28,
        4 | 6 | 9 | 11 => 30,
        _ => 31,
    };
    let mut date = (1970u64, 1u64, 1u64);
    for days in 0..300_000u64 {
        assert_eq!(epoch_days_to_date(days), date);
        let (y, m, d) = date;
        date = if d < month_len(y, m) {
            (y, m, d + 1)
        } else if m < 12 {
            (y, m + 1, 1)
        } else {
            (y + 1, 1, 1)
        };
    }
}

#[test]
fn days_before_the_epoch_are_twos_complement() {
    assert_eq!(epoch_days_to_date((-1i64) as u64), (1969, 12, 31));
    assert_eq!(epoch_days_to_date((-719468i64) as u64), (0, 3, 1));
    assert_eq!(epoch_days_to_date((-719469i64) as u64), (0, 2, 29));
    let (y, m, d) = epoch_days_to_date((-719468i64 - 146097) as u64);
    assert_eq!((y as i64, m, d), (-400, 3, 1));
    let (y, m, d) = epoch_days_to_date((-719468i64 - 146098) as u64);
    assert_eq!((y as i64, m, d), (-400, 2, 29));
}

#[test]
fn timestamps_are_iso_8601() {
    assert_eq!(timestamp_of(Some(0)), "1970-01-01T00:00:00Z");
    assert_eq!(timestamp_of(Some(1)), "1970-01-01T00:00:01Z");
    assert_eq!(timestamp_of(Some(86399)), "1970-01-01T23:59:59Z");
    assert_eq!(timestamp_of(Some(951_782_400)), "2000-02-29T00:00:00Z");
    assert_eq!(timestamp_of(Some(1_774_621_800)), "2026-03-27T14:30:00Z");
    assert_eq!(timestamp_of(Some(253_402_300_799)), "9999-12-31T23:59:59Z");
    assert_eq!(timestamp_of(Some(253_402_300_800)), "10000-01-01T00:00:00Z");
}

#[test]
fn largest_reading_has_a_timestamp() {
    let t = timestamp_of(Some(u64::MAX));
    assert_eq!(t, "584554051223-11-09T07:00:15Z");
}

#[test]
fn clock_before_the_epoch() {
    assert_eq!(timestamp_of(None), "unknown");
    assert_eq!(epoch_secs_of(None), 0);
    assert_eq!(epoch_secs_of(Some(17)), 17);
}

#[test]
fn clock_is_read() {
    let before = std::time::SystemTime::now()
        .duration_since(std::time::UNIX_EPOCH)
        .unwrap()
        .as_secs();
    let now = now_epoch_secs();
    let after = std::time::SystemTime::now()
        .duration_since(std::time::UNIX_EPOCH)
        .unwrap()
        .as_secs();
    assert!(before <= now && now <= after);
    let t = now_timestamp();
    assert_eq!(t.len(), 20);
    assert!(t >= timestamp_of(Some(before)));
}
