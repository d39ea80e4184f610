//! Calendar dates and time stamps.

use vstd::arithmetic::div_mod::*;
use vstd::prelude::*;
use vstd::string::*;

use crate::text;

verus! {

/// Whether `year` has a 29 February in the Gregorian calendar.
pub open spec fn leap(year: int) -> bool {
    year % 4 == 0 && (year % 100 != 0 || year % 400 == 0)
}

/// The number of days of `year`.
pub open spec fn days_in_year(year: int) -> int {
    if leap(year) {
        366
    } else {
        365
    }
}

/// The number of days of a month, January being 1.
pub open spec fn days_in_month(year: int, month: int) -> int {
    if month == 2 {
        if leap(year) {
            29
        } else {
            28
        }
    } else if month == 4 || month == 6 || month == 9 || month == 11 {
        30
    } else {
        31
    }
}

/// The days from 1 January 1970 to 1 January of `year`; negative for years before 1970.
pub open spec fn days_before_year(year: int) -> int
    decreases
            if year >= 1970 {
                year - 1970
            } else {
                1970 - year
            },
{
    if year == 1970 {
        0
    } else if year > 1970 {
        days_before_year(year - 1) + days_in_year(year - 1)
    } else {
        days_before_year(year + 1) - days_in_year(year)
    }
}

/// The days of `year` before its month `month`.
pub open spec fn days_before_month(year: int, month: int) -> int
    decreases month,
{
    if month <= 1 {
        0
    } else {
        days_before_month(year, month - 1) + days_in_month(year, month - 1)
    }
}

/// `year`-`month`-`day` is a date of the calendar.
pub open spec fn valid_date(year: int, month: int, day: int) -> bool {
    1 <= month <= 12 && 1 <= day <= days_in_month(year, month)
}

/// The days from 1 January 1970 to the given date.
pub open spec fn day_number(year: int, month: int, day: int) -> int {
    days_before_year(year) + days_before_month(year, month) + day - 1
}

/// The leap days in the years 1 to `year`, extended to years before 1.
#[verifier::opaque]
spec fn leap_days(year: int) -> int {
    year / 4 - year / 100 + year / 400
}

proof fn leap_days_step(year: int)
    ensures
        days_in_year(year) == 365 + leap_days(year) - leap_days(year - 1),
{
    reveal(leap_days);
    assert(year / 4 - (year - 1) / 4 == if year % 4 == 0 { 1int } else { 0 });
    assert(year / 100 - (year - 1) / 100 == if year % 100 == 0 { 1int } else { 0 });
    assert(year / 400 - (year - 1) / 400 == if year % 400 == 0 { 1int } else { 0 });
    assert(year % 400 == 0 ==> year % 100 == 0);
    assert(year % 100 == 0 ==> year % 4 == 0);
}

proof fn days_before_year_closed(year: int)
    ensures
        days_before_year(year) == 365 * (year - 1970) + leap_days(year - 1) - 477,
    decreases
            if year >= 1970 {
                year - 1970
            } else {
                1970 - year
            },
{
    assert(leap_days(1969) == 477) by {
        reveal(leap_days);
    }
    if year > 1970 {
        days_before_year_closed(year - 1);
        leap_days_step(year - 1);
    } else if year < 1970 {
        days_before_year_closed(year + 1);
        leap_days_step(year);
    }
}

proof fn days_before_month_closed(year: int)
    ensures
        days_before_month(year, 1) == 0,
        days_before_month(year, 2) == 31,
        days_before_month(year, 3) == days_in_year(year) - 306,
        days_before_month(year, 4) == days_in_year(year) - 275,
        days_before_month(year, 5) == days_in_year(year) - 245,
        days_before_month(year, 6) == days_in_year(year) - 214,
        days_before_month(year, 7) == days_in_year(year) - 184,
        days_before_month(year, 8) == days_in_year(year) - 153,
        days_before_month(year, 9) == days_in_year(year) - 122,
        days_before_month(year, 10) == days_in_year(year) - 92,
        days_before_month(year, 11) == days_in_year(year) - 61,
        days_before_month(year, 12) == days_in_year(year) - 31,
{
    reveal_with_fuel(days_before_month, 13);
}

/// The year of a 400 year era in which its day `k` falls, and the day of that year; years begin
/// on 1 March here, so that a leap day is the last day of its year.
proof fn year_of_era(k: u32)
    by (bit_vector)
    requires
        k <= 146096,
    ensures
        ({
            let y: u32 = ((k - k / 1460 + k / 36524 - k / 146096) / 365) as u32;
            let doy: u32 = (k - (365 * y + y / 4 - y / 100)) as u32;
            &&& k / 1460 <= k
            &&& y <= 399
            &&& 365 * y + y / 4 - y / 100 <= k
            &&& doy <= 365
            &&& doy == 365 ==> (y + 1) % 4 == 0 && ((y + 1) % 100 != 0 || (y + 1) % 400 == 0)
        }),
{
}

/// The month in which day `doy` of a year that begins on 1 March falls, and the day of the month.
proof fn month_of_year(doy: u32)
    by (bit_vector)
    requires
        doy <= 365,
    ensures
        ({
            let mp: u32 = ((5 * doy + 2) / 153) as u32;
            let start: u32 = ((153 * mp + 2) / 5) as u32;
            &&& mp <= 11
            &&& start <= doy
            &&& (mp == 1 || mp == 3 || mp == 6 || mp == 8 ==> doy - start <= 29)
            &&& (mp == 11 ==> doy - start <= 28 && (doy - start == 28 ==> doy == 365))
            &&& doy - start <= 30
        }),
{
}

proof fn leap_period(year: int, era: int)
    ensures
        leap(year + era * 400) == leap(year),
        leap_days(year + era * 400) == leap_days(year) + 97 * era,
{
    reveal(leap_days);
    lemma_hoist_over_denominator(year, era * 100, 4);
    lemma_hoist_over_denominator(year, era * 4, 100);
    lemma_hoist_over_denominator(year, era, 400);
    lemma_mod_multiples_vanish(era * 100, year, 4);
    lemma_mod_multiples_vanish(era * 4, year, 100);
    lemma_mod_multiples_vanish(era, year, 400);
}

/// The date that the era arithmetic gives for the day `n` after 1 January 1970.
spec fn computed_date(n: int) -> (int, int, int) {
    let z = n + 719468;
    let era = z / 146097;
    let doe = z % 146097;
    let yoe = (doe - doe / 1460 + doe / 36524 - doe / 146096) / 365;
    let doy = doe - (365 * yoe + yoe / 4 - yoe / 100);
    let mp = (5 * doy + 2) / 153;
    let d = doy - (153 * mp + 2) / 5 + 1;
    let m = if mp < 10 {
        mp + 3
    } else {
        mp - 9
    };
    let y = yoe + era * 400;
    (if m <= 2 {
        y + 1
    } else {
        y
    }, m, d)
}

proof fn computed_date_correct(n: int)
    ensures
        valid_date(computed_date(n).0, computed_date(n).1, computed_date(n).2),
        day_number(computed_date(n).0, computed_date(n).1, computed_date(n).2) == n,
{
    let z = n + 719468;
    let era = z / 146097;
    let doe = z % 146097;
    year_of_era(doe as u32);
    let yoe = (doe - doe / 1460 + doe / 36524 - doe / 146096) / 365;
    let doy = doe - (365 * yoe + yoe / 4 - yoe / 100);
    assert(0 <= yoe <= 399);
    assert(0 <= doy <= 365);
    month_of_year(doy as u32);
    let mp = (5 * doy + 2) / 153;
    let start = (153 * mp + 2) / 5;
    assert(0 <= mp <= 11);
    let y = yoe + era * 400;
    leap_period(yoe, era);
    leap_period(yoe - 1, era);
    leap_period(yoe + 1, era);
    days_before_month_closed(y);
    days_before_month_closed(y + 1);
    assert(day_number(computed_date(n).0, computed_date(n).1, computed_date(n).2) == n) by {
        assert(n == era * 146097 + doe - 719468);
        assert(leap_days(yoe) == yoe / 4 - yoe / 100) by {
            reveal(leap_days);
        }
        days_before_year_closed(y);
        days_before_year_closed(y + 1);
        assert(days_before_year(y + 1) == 365 * (yoe - 1969) + yoe / 4 - yoe / 100 + 146097 * era
            - 477);
        assert(days_before_year(y) == days_before_year(y + 1) - days_in_year(y));
    }
}

proof fn days_before_year_increases(a: int, b: int)
    requires
        a < b,
    ensures
        days_before_year(a) + days_in_year(a) <= days_before_year(b),
    decreases b - a,
{
    if a + 1 == b {
        assert(days_before_year(b) == days_before_year(a) + days_in_year(a));
    } else {
        days_before_year_increases(a, b - 1);
        assert(days_before_year(b) == days_before_year(b - 1) + days_in_year(b - 1));
    }
}

proof fn days_before_month_increases(year: int, a: int, b: int)
    requires
        1 <= a < b,
    ensures
        days_before_month(year, a) + days_in_month(year, a) <= days_before_month(year, b),
    decreases b - a,
{
    if a + 1 < b {
        days_before_month_increases(year, a, b - 1);
    }
}

proof fn day_within_year(year: int, month: int, day: int)
    requires
        valid_date(year, month, day),
    ensures
        days_before_year(year) <= day_number(year, month, day) < days_before_year(year)
            + days_in_year(year),
{
    days_before_month_closed(year);
}

/// Two dates with the same day number are the same date.
pub proof fn day_number_injective(date: (int, int, int), other: (int, int, int))
    requires
        valid_date(date.0, date.1, date.2),
        valid_date(other.0, other.1, other.2),
        day_number(date.0, date.1, date.2) == day_number(other.0, other.1, other.2),
    ensures
        date == other,
{
    day_within_year(date.0, date.1, date.2);
    day_within_year(other.0, other.1, other.2);
    if date.0 < other.0 {
        days_before_year_increases(date.0, other.0);
    } else if other.0 < date.0 {
        days_before_year_increases(other.0, date.0);
    } else if date.1 < other.1 {
        days_before_month_increases(date.0, date.1, other.1);
    } else if other.1 < date.1 {
        days_before_month_increases(date.0, other.1, date.1);
    }
}

/// `date` is the calendar date `n` days after 1 January 1970.
pub open spec fn is_date_of(date: (int, int, int), n: int) -> bool {
    valid_date(date.0, date.1, date.2) && day_number(date.0, date.1, date.2) == n
}

/// The calendar date (year, month, day) `n` days after 1 January 1970.
pub open spec fn date_of(n: int) -> (int, int, int) {
    choose|date: (int, int, int)| is_date_of(date, n)
}

/// Every day has exactly one date.
pub proof fn one_date_for_every_day(n: int)
    ensures
        is_date_of(date_of(n), n),
        forall|date: (int, int, int)| #[trigger] is_date_of(date, n) ==> date == date_of(n),
{
    computed_date_correct(n);
    assert(is_date_of(computed_date(n), n));
    assert forall|date: (int, int, int)| #[trigger] is_date_of(date, n) implies date == date_of(
        n,
    ) by {
        day_number_injective(date, date_of(n));
    }
}

/// The date that follows a date in the calendar.
pub open spec fn next_date(date: (int, int, int)) -> (int, int, int) {
    if date.2 < days_in_month(date.0, date.1) {
        (date.0, date.1, date.2 + 1)
    } else if date.1 < 12 {
        (date.0, date.1 + 1, 1)
    } else {
        (date.0 + 1, 1, 1)
    }
}

/// The days are counted from 1 January 1970, and the day after a date has the following number.
pub proof fn days_follow_the_calendar(n: int)
    ensures
        date_of(0) == (1970int, 1int, 1int),
        date_of(n + 1) == next_date(date_of(n)),
{
    one_date_for_every_day(0);
    one_date_for_every_day(n);
    one_date_for_every_day(n + 1);
    assert(is_date_of((1970int, 1int, 1int), 0));
    let date = date_of(n);
    days_before_month_closed(date.0);
    assert(days_before_month(date.0 + 1, 1) == 0);
    assert(days_before_year(date.0 + 1) == days_before_year(date.0) + days_in_year(date.0));
    assert(is_date_of(next_date(date), n + 1));
}

proof fn year_not_before_1970(date: (int, int, int))
    requires
        valid_date(date.0, date.1, date.2),
        day_number(date.0, date.1, date.2) >= 0,
    ensures
        date.0 >= 1970,
{
    if date.0 < 1970 {
        days_before_year_increases(date.0, 1970);
        day_within_year(date.0, date.1, date.2);
    }
}

/// The value of `n` read as a two's complement number.
pub open spec fn signed(n: u64) -> int {
    if n <= i64::MAX {
        n as int
    } else {
        n - 0x1_0000_0000_0000_0000
    }
}

/// Convert days since Unix epoch to (year, month, day).
///
/// Counts of more than `i64::MAX` stand for days before the epoch, and years of more than
/// `i64::MAX` for years before year 0, both in two's complement.
pub fn epoch_days_to_date(days: u64) -> (r: (u64, u64, u64))
    requires
        signed(days) + 719468 <= i64::MAX,
    ensures
        (signed(r.0), r.1 as int, r.2 as int) == date_of(signed(days)),
{
    proof {
        assert(signed(days) == days as i64) by {
            assert(days <= 0x7fff_ffff_ffff_ffff ==> days as i64 == days) by (bit_vector);
            assert(days > 0x7fff_ffff_ffff_ffff ==> days as i64 == days - 0x1_0000_0000_0000_0000)
                by (bit_vector);
        }
    }
    let z: i64 = days as i64 + 719468;
    let shifted: i64 = if z >= 0 {
        z
    } else {
        z - 146096
    };
    let era: i64 = shifted / 146097;
    assert(era == z as int / 146097);
    let doe: u64 = (z - era * 146097) as u64;
    proof {
        year_of_era(doe as u32);
    }
    let yoe: u64 = (doe - doe / 1460 + doe / 36524 - doe / 146096) / 365;
    let y: i64 = (yoe as i64) + era * 400;
    let doy: u64 = doe - (365 * yoe + yoe / 4 - yoe / 100);
    proof {
        month_of_year(doy as u32);
    }
    let mp: u64 = (5 * doy + 2) / 153;
    let d: u64 = doy - (153 * mp + 2) / 5 + 1;
    let m: u64 = if mp < 10 {
        mp + 3
    } else {
        mp - 9
    };
    let y: i64 = if m <= 2 {
        y + 1
    } else {
        y
    };
    proof {
        computed_date_correct(signed(days));
        assert((y as int, m as int, d as int) == computed_date(signed(days)));
        assert(is_date_of(computed_date(signed(days)), signed(days)));
        one_date_for_every_day(signed(days));
        assert(y >= 0 ==> y as u64 == y) by (bit_vector);
        assert(y < 0 ==> y as u64 == y + 0x1_0000_0000_0000_0000) by (bit_vector);
    }
    (y as u64, m, d)
}

/// The time of day `secs` seconds after midnight UTC, on the date it falls on, as an ISO 8601
/// time stamp; `secs` counts from 1 January 1970.
pub open spec fn iso_timestamp(secs: nat) -> Seq<char> {
    let date = date_of((secs / 86400) as int);
    let time = secs % 86400;
    text::padded(date.0 as nat, 4) + "-"@ + text::padded(date.1 as nat, 2) + "-"@ + text::padded(
        date.2 as nat,
        2,
    ) + "T"@ + text::padded(time / 3600, 2) + ":"@ + text::padded(time % 3600 / 60, 2) + ":"@
        + text::padded(time % 60, 2) + "Z"@
}

/// The time stamp for a clock reading; a clock set before 1970 gives none.
pub open spec fn timestamp(reading: Option<u64>) -> Seq<char> {
    match reading {
        Some(secs) => iso_timestamp(secs as nat),
        None => "unknown"@,
    }
}

/// The epoch seconds for a clock reading; a clock set before 1970 counts as 1970.
pub open spec fn epoch_secs(reading: Option<u64>) -> u64 {
    match reading {
        Some(secs) => secs,
        None => 0,
    }
}

proof fn padded_len(n: nat, width: int)
    requires
        width == 2 && n < 100 || width == 4 && n < 10000,
    ensures
        text::padded(n, width).len() == width,
{
    reveal_with_fuel(text::decimal, 5);
}

/// Up to the year 9999 a time stamp has the shape `YYYY-MM-DDThh:mm:ssZ`.
pub proof fn timestamps_have_one_shape(secs: nat)
    requires
        date_of((secs / 86400) as int).0 <= 9999,
    ensures
        iso_timestamp(secs).len() == 20,
        iso_timestamp(secs)[4] == '-',
        iso_timestamp(secs)[7] == '-',
        iso_timestamp(secs)[10] == 'T',
        iso_timestamp(secs)[13] == ':',
        iso_timestamp(secs)[16] == ':',
        iso_timestamp(secs)[19] == 'Z',
{
    reveal_strlit("-");
    reveal_strlit("T");
    reveal_strlit(":");
    reveal_strlit("Z");
    let days = (secs / 86400) as int;
    let date = date_of(days);
    let time = secs % 86400;
    one_date_for_every_day(days);
    year_not_before_1970(date);
    padded_len(date.0 as nat, 4);
    padded_len(date.1 as nat, 2);
    padded_len(date.2 as nat, 2);
    padded_len(time / 3600, 2);
    padded_len(time % 3600 / 60, 2);
    padded_len(time % 60, 2);
}

/// The time stamp for a clock reading in seconds since 1 January 1970.
pub fn timestamp_of(reading: Option<u64>) -> (r: String)
    ensures
        r@ == timestamp(reading),
{
    match reading {
        Some(secs) => {
            let days: u64 = secs / 86400;
            let remaining: u64 = secs % 86400;
            let hours: u64 = remaining / 3600;
            let minutes: u64 = (remaining % 3600) / 60;
            let seconds: u64 = remaining % 60;
            proof {
                one_date_for_every_day(days as int);
                year_not_before_1970(date_of(days as int));
            }
            let (year, month, day) = epoch_days_to_date(days);
            let mut out = String::new();
            text::push_padded(&mut out, year, 4);
            out.append("-");
            text::push_padded(&mut out, month, 2);
            out.append("-");
            text::push_padded(&mut out, day, 2);
            out.append("T");
            text::push_padded(&mut out, hours, 2);
            out.append(":");
            text::push_padded(&mut out, minutes, 2);
            out.append(":");
            text::push_padded(&mut out, seconds, 2);
            out.append("Z");
            out
        },
        None => "unknown".to_owned(),
    }
}

/// The epoch seconds for a clock reading in seconds since 1 January 1970.
pub fn epoch_secs_of(reading: Option<u64>) -> (r: u64)
    ensures
        r == epoch_secs(reading),
{
    match reading {
        Some(secs) => secs,
        None => 0,
    }
}

/// A point in time of the system clock.
#[verifier::external_type_specification]
#[verifier::external_body]
pub struct ExSystemTime(std::time::SystemTime);

/// The error of a clock that is set before the point it is compared with.
#[verifier::external_type_specification]
#[verifier::external_body]
pub struct ExSystemTimeError(std::time::SystemTimeError);

/// `SystemTime::now` reads the system clock. Nothing is claimed of the time it shows.
pub assume_specification[ std::time::SystemTime::now ]() -> (now: std::time::SystemTime)
;

/// `Duration::as_secs` gives the whole seconds of a duration. Which number that is, is left
/// unsaid: the durations here are measured on the clock.
pub assume_specification[ std::time::Duration::as_secs ](d: &std::time::Duration) -> (secs: u64)
;

/// `SystemTime::duration_since` on the start of 1970: the time that has passed since then, or an
/// error where `now` lies before it. What the clock showed is unknown, so nothing is claimed.
#[verifier::external_body]
fn since_epoch(now: std::time::SystemTime) -> (r: Result<
    std::time::Duration,
    std::time::SystemTimeError,
>) {
    now.duration_since(std::time::UNIX_EPOCH)
}

/// What a comparison of the clock with the start of 1970 reads as: the whole seconds of the time
/// that has passed, as `Duration::as_secs` gives them, or nothing for a clock set before 1970.
pub open spec fn reads_as(
    since: Result<std::time::Duration, std::time::SystemTimeError>,
    reading: Option<u64>,
) -> bool {
    match since {
        Ok(d) => reading matches Some(secs) && call_ensures(
            std::time::Duration::as_secs,
            (&d,),
            secs,
        ),
        Err(_) => reading is None,
    }
}

/// The clock can be read as `reading`: `SystemTime::now` can give a point in time whose comparison
/// with the start of 1970 reads so.
pub closed spec fn clock_shows(reading: Option<u64>) -> bool {
    exists|
        now: std::time::SystemTime,
        since: Result<std::time::Duration, std::time::SystemTimeError>,
    |
        #![trigger call_ensures(since_epoch, (now,), since)]
        call_ensures(std::time::SystemTime::now, (), now) && call_ensures(
            since_epoch,
            (now,),
            since,
        ) && reads_as(since, reading)
}

/// Reads the system clock: the seconds since 1 January 1970, or nothing if it is set before that.
fn clock_reading() -> (r: Option<u64>)
    ensures
        clock_shows(r),
{
    match since_epoch(std::time::SystemTime::now()) {
        Ok(d) => Some(d.as_secs()),
        Err(_) => None,
    }
}

/// Current time as Unix epoch seconds: those of a reading of the clock. Which reading that is, is
/// unknown; [`epoch_secs_of`] says what comes back for each.
pub fn now_epoch_secs() -> (r: u64)
    ensures
        exists|reading: Option<u64>| #[trigger]
            clock_shows(reading) && r == epoch_secs(reading),
{
    epoch_secs_of(clock_reading())
}

/// The current time as a time stamp: that of a reading of the clock. Which reading that is, is
/// unknown; [`timestamp_of`] says what comes back for each.
pub fn now_timestamp() -> (r: String)
    ensures
        exists|reading: Option<u64>| #[trigger]
            clock_shows(reading) && r@ == timestamp(reading),
{
    timestamp_of(clock_reading())
}

/// The calendar is the Gregorian one: of the years that are divisible by four, those that end a
/// century have no leap day unless they are divisible by 400, and February alone changes.
pub proof fn the_calendar_is_gregorian(year: int)
    ensures
        year % 4 != 0 ==> days_in_month(year, 2) == 28,
        year % 100 == 0 && year % 400 != 0 ==> days_in_month(year, 2) == 28,
        year % 4 == 0 && year % 100 != 0 ==> days_in_month(year, 2) == 29,
        year % 400 == 0 ==> days_in_month(year, 2) == 29,
        forall|month: int|
            month == 1 || month == 3 || month == 5 || month == 7 || month == 8 || month == 10
                || month == 12 ==> #[trigger] days_in_month(year, month) == 31,
        forall|month: int|
            month == 4 || month == 6 || month == 9 || month == 11 ==> #[trigger] days_in_month(
                year,
                month,
            ) == 30,
        days_in_year(year) == 337 + days_in_month(year, 2),
        days_before_year(year + 1) - days_before_year(year) == days_in_year(year),
        days_before_year(1970) == 0,
        days_before_month(year, 13) == days_in_year(year),
{
    days_before_month_closed(year);
    reveal_with_fuel(days_before_month, 2);
}

/// A date is one of its month, which is one of the twelve.
pub proof fn dates_lie_in_their_month(n: int, date: (int, int, int))
    ensures
        ({
            let (year, month, day) = date_of(n);
            1 <= month <= 12 && 1 <= day <= days_in_month(year, month)
        }),
        is_date_of(date, n) <==> date == date_of(n),
        day_number(date.0, date.1, date.2) == days_before_year(date.0) + days_before_month(
            date.0,
            date.1,
        ) + date.2 - 1,
{
    one_date_for_every_day(n);
}

/// Reading a number as a two's complement one changes it by a multiple of 2 to the 64.
pub proof fn signed_numbers_have_64_bits(n: u64)
    ensures
        i64::MIN <= signed(n) <= i64::MAX,
        signed(n) == n || signed(n) + 0x1_0000_0000_0000_0000 == n,
{
}

/// A time stamp tells its time: the year in at least four digits, and month, day, hours, minutes
/// and seconds in two each, can be read back from it.
pub proof fn timestamps_tell_the_time(secs: nat)
    ensures
        ({
            let t = iso_timestamp(secs);
            let n = t.len() - 16;
            let (year, month, day) = date_of((secs / 86400) as int);
            let hours = text::number(t.subrange(n + 7, n + 9));
            let minutes = text::number(t.subrange(n + 10, n + 12));
            let seconds = text::number(t.subrange(n + 13, n + 15));
            &&& n >= 4
            &&& text::all_digits(t.take(n)) && text::number(t.take(n)) == year
            &&& n > 4 ==> t[0] != '0'
            &&& t[n] == '-' && t[n + 3] == '-' && t[n + 6] == 'T'
            &&& t[n + 9] == ':' && t[n + 12] == ':' && t[n + 15] == 'Z'
            &&& text::all_digits(t.subrange(n + 1, n + 3))
            &&& text::number(t.subrange(n + 1, n + 3)) == month
            &&& text::all_digits(t.subrange(n + 4, n + 6))
            &&& text::number(t.subrange(n + 4, n + 6)) == day
            &&& text::all_digits(t.subrange(n + 7, n + 9))
            &&& text::all_digits(t.subrange(n + 10, n + 12))
            &&& text::all_digits(t.subrange(n + 13, n + 15))
            &&& 0 <= hours < 24 && 0 <= minutes < 60 && 0 <= seconds < 60
            &&& hours * 3600 + minutes * 60 + seconds == secs % 86400
        }),
{
    reveal_strlit("-");
    reveal_strlit("T");
    reveal_strlit(":");
    reveal_strlit("Z");
    let days = (secs / 86400) as int;
    let date = date_of(days);
    let time = secs % 86400;
    one_date_for_every_day(days);
    year_not_before_1970(date);
    let y = text::padded(date.0 as nat, 4);
    let mo = text::padded(date.1 as nat, 2);
    let d = text::padded(date.2 as nat, 2);
    let h = text::padded(time / 3600, 2);
    let mi = text::padded(time % 3600 / 60, 2);
    let s = text::padded(time % 60, 2);
    padded_len(date.1 as nat, 2);
    padded_len(date.2 as nat, 2);
    padded_len(time / 3600, 2);
    padded_len(time % 3600 / 60, 2);
    padded_len(time % 60, 2);
    text::padding_keeps_the_number(date.0 as nat, 4);
    text::padding_keeps_the_number(date.1 as nat, 2);
    text::padding_keeps_the_number(date.2 as nat, 2);
    text::padding_keeps_the_number(time / 3600, 2);
    text::padding_keeps_the_number(time % 3600 / 60, 2);
    text::padding_keeps_the_number(time % 60, 2);
    text::numerals_are_read_back(date.0 as nat);
    let t = iso_timestamp(secs);
    let n = t.len() - 16;
    assert(n == y.len());
    assert(t.take(n) =~= y);
    if n > 4 {
        assert(y.skip(0) =~= y);
    }
    assert(t.subrange(n + 1, n + 3) =~= mo);
    assert(t.subrange(n + 4, n + 6) =~= d);
    assert(t.subrange(n + 7, n + 9) =~= h);
    assert(t.subrange(n + 10, n + 12) =~= mi);
    assert(t.subrange(n + 13, n + 15) =~= s);
    assert(time % 60 == time % 3600 % 60);
}

/// What a clock reading gives is the number of its seconds and the time stamp of that time; a
/// clock set before 1970 gives zero and no time.
pub proof fn readings_are_told(reading: Option<u64>)
    ensures
        reading is None ==> epoch_secs(reading) == 0 && timestamp(reading) == "unknown"@,
        reading matches Some(secs) ==> epoch_secs(reading) == secs && timestamp(reading)
            == iso_timestamp(secs as nat),
{
}

/// The clock is read as `SystemTime::now`, its comparison with the start of 1970 and
/// `Duration::as_secs` give it: one that is set before 1970 reads as nothing, and any other as
/// the whole seconds that have passed.
pub proof fn readings_come_from_the_clock(
    reading: Option<u64>,
    since: Result<std::time::Duration, std::time::SystemTimeError>,
)
    ensures
        since is Err ==> (reads_as(since, reading) <==> reading is None),
        since matches Ok(d) ==> (reads_as(since, reading) <==> reading is Some && call_ensures(
            std::time::Duration::as_secs,
            (&d,),
            reading->0,
        )),
        clock_shows(reading) ==> exists|
            now: std::time::SystemTime,
            s: Result<std::time::Duration, std::time::SystemTimeError>,
        | #[trigger]
            is_comparison(now, s) && call_ensures(std::time::SystemTime::now, (), now) && reads_as(
                s,
                reading,
            ),
{
    if clock_shows(reading) {
        let (now, s) = choose|
            now: std::time::SystemTime,
            s: Result<std::time::Duration, std::time::SystemTimeError>,
        |
            #![trigger call_ensures(since_epoch, (now,), s)]
            call_ensures(std::time::SystemTime::now, (), now) && call_ensures(
                since_epoch,
                (now,),
                s,
            ) && reads_as(s, reading);
        assert(is_comparison(now, s));
    }
}

/// `s` can be what comparing `now` with the start of 1970 gives.
pub closed spec fn is_comparison(
    now: std::time::SystemTime,
    s: Result<std::time::Duration, std::time::SystemTimeError>,
) -> bool {
    call_ensures(since_epoch, (now,), s)
}

} // verus!
