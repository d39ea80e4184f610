//! What is recorded about each device, check by check.

use vstd::prelude::*;
use vstd::string::*;

use crate::text;

verus! {

/// A percentage.
#[derive(Debug, Clone, Copy, PartialEq, Eq, Structural)]
pub enum Percentage {
    /// The number whose IEEE 754 double has these bits.
    Bits(u64),
    /// The share that `part` is of `whole`, times one hundred.
    Share { part: u64, whole: u64 },
}

/// Recorded metrics for a single device.
#[derive(Debug)]
pub struct DeviceMetrics {
    pub device_id: String,
    pub is_up: bool,
    pub last_status_code: Option<u16>,
    pub last_checked: String,
    pub response_time_ms: Option<u64>,
    pub total_checks: u64,
    pub total_up: u64,
    pub total_down: u64,
    pub uptime_percentage: Percentage,
    pub last_error: Option<String>,
    pub consecutive_failures: u32,
}

/// What [`DeviceMetrics`] are, in terms of their texts.
pub struct MetricsView {
    pub device_id: Seq<char>,
    pub is_up: bool,
    pub last_status_code: Option<u16>,
    pub last_checked: Seq<char>,
    pub response_time_ms: Option<u64>,
    pub total_checks: u64,
    pub total_up: u64,
    pub total_down: u64,
    pub uptime_percentage: Percentage,
    pub last_error: Option<Seq<char>>,
    pub consecutive_failures: u32,
}

impl View for DeviceMetrics {
    type V = MetricsView;

    open spec fn view(&self) -> MetricsView {
        MetricsView {
            device_id: self.device_id@,
            is_up: self.is_up,
            last_status_code: self.last_status_code,
            last_checked: self.last_checked@,
            response_time_ms: self.response_time_ms,
            total_checks: self.total_checks,
            total_up: self.total_up,
            total_down: self.total_down,
            uptime_percentage: self.uptime_percentage,
            last_error: text::optional_text(self.last_error),
            consecutive_failures: self.consecutive_failures,
        }
    }
}

/// A copy of an optional text.
pub fn clone_optional(s: &Option<String>) -> (r: Option<String>)
    ensures
        r == *s,
{
    match s {
        Some(t) => Some(t.clone()),
        None => None,
    }
}

impl Clone for DeviceMetrics {
    fn clone(&self) -> (r: Self)
        ensures
            r == *self,
    {
        DeviceMetrics {
            device_id: self.device_id.clone(),
            is_up: self.is_up,
            last_status_code: self.last_status_code,
            last_checked: self.last_checked.clone(),
            response_time_ms: self.response_time_ms,
            total_checks: self.total_checks,
            total_up: self.total_up,
            total_down: self.total_down,
            uptime_percentage: self.uptime_percentage,
            last_error: clone_optional(&self.last_error),
            consecutive_failures: self.consecutive_failures,
        }
    }
}

/// The metrics of a device that was never checked.
pub open spec fn fresh(device_id: Seq<char>) -> MetricsView {
    MetricsView {
        device_id,
        is_up: false,
        last_status_code: None,
        last_checked: "never"@,
        response_time_ms: None,
        total_checks: 0,
        total_up: 0,
        total_down: 0,
        uptime_percentage: Percentage::Bits(0),
        last_error: None,
        consecutive_failures: 0,
    }
}

/// The share of successful checks; none is computed while there are no checks.
pub open spec fn uptime(m: MetricsView) -> Percentage {
    if m.total_checks > 0 {
        Percentage::Share { part: m.total_up, whole: m.total_checks }
    } else {
        m.uptime_percentage
    }
}

/// `m` with its uptime brought up to date.
pub open spec fn with_uptime(m: MetricsView) -> MetricsView {
    MetricsView { uptime_percentage: uptime(m), ..m }
}

/// `m` after a check that found the device up.
pub open spec fn after_success(
    m: MetricsView,
    status_code: u16,
    response_time_ms: u64,
    timestamp: Seq<char>,
) -> MetricsView {
    with_uptime(
        MetricsView {
            is_up: true,
            last_status_code: Some(status_code),
            last_checked: timestamp,
            response_time_ms: Some(response_time_ms),
            total_checks: (m.total_checks + 1) as u64,
            total_up: (m.total_up + 1) as u64,
            last_error: None,
            consecutive_failures: 0,
            ..m
        },
    )
}

/// `m` after a check that found the device down.
pub open spec fn after_down(
    m: MetricsView,
    status_code: Option<u16>,
    response_time_ms: Option<u64>,
    error: Seq<char>,
    timestamp: Seq<char>,
) -> MetricsView {
    with_uptime(
        MetricsView {
            is_up: false,
            last_status_code: status_code,
            last_checked: timestamp,
            response_time_ms,
            total_checks: (m.total_checks + 1) as u64,
            total_down: (m.total_down + 1) as u64,
            last_error: Some(error),
            consecutive_failures: (m.consecutive_failures + 1) as u32,
            ..m
        },
    )
}

/// The error recorded in the metrics for a status other than the expected one.
pub open spec fn unexpected_status_error(status_code: u16, expected: u16) -> Seq<char> {
    "unexpected status: got "@ + text::decimal(status_code as nat) + ", expected "@ + text::decimal(
        expected as nat,
    )
}

/// `m` can count one more successful check.
pub open spec fn can_count_up(m: MetricsView) -> bool {
    m.total_checks < u64::MAX && m.total_up < u64::MAX
}

/// `m` can count one more failed check.
pub open spec fn can_count_down(m: MetricsView) -> bool {
    m.total_checks < u64::MAX && m.total_down < u64::MAX && m.consecutive_failures < u32::MAX
}

impl DeviceMetrics {
    /// The metrics of a device that was never checked.
    pub fn new(device_id: &str) -> (r: Self)
        ensures
            r@ == fresh(device_id@),
    {
        DeviceMetrics {
            device_id: device_id.to_owned(),
            is_up: false,
            last_status_code: None,
            last_checked: "never".to_owned(),
            response_time_ms: None,
            total_checks: 0,
            total_up: 0,
            total_down: 0,
            uptime_percentage: Percentage::Bits(0),
            last_error: None,
            consecutive_failures: 0,
        }
    }

    /// Records a check that was answered with the expected status.
    pub fn record_success(&mut self, status_code: u16, response_time_ms: u64, timestamp: &str)
        requires
            can_count_up(old(self)@),
        ensures
            final(self)@ == after_success(old(self)@, status_code, response_time_ms, timestamp@),
    {
        self.is_up = true;
        self.last_status_code = Some(status_code);
        self.last_checked = timestamp.to_owned();
        self.response_time_ms = Some(response_time_ms);
        self.total_checks = self.total_checks + 1;
        self.total_up = self.total_up + 1;
        self.last_error = None;
        self.consecutive_failures = 0;
        self.recalculate_uptime();
    }

    /// Records a check that was not answered.
    pub fn record_failure(&mut self, error: &str, timestamp: &str)
        requires
            can_count_down(old(self)@),
        ensures
            final(self)@ == after_down(old(self)@, None, None, error@, timestamp@),
    {
        self.is_up = false;
        self.last_status_code = None;
        self.last_checked = timestamp.to_owned();
        self.response_time_ms = None;
        self.total_checks = self.total_checks + 1;
        self.total_down = self.total_down + 1;
        self.last_error = Some(error.to_owned());
        self.consecutive_failures = self.consecutive_failures + 1;
        self.recalculate_uptime();
    }

    /// Records a check that was answered with another status than the expected one.
    pub fn record_unexpected_status(
        &mut self,
        status_code: u16,
        expected: u16,
        response_time_ms: u64,
        timestamp: &str,
    )
        requires
            can_count_down(old(self)@),
        ensures
            final(self)@ == after_down(
                old(self)@,
                Some(status_code),
                Some(response_time_ms),
                unexpected_status_error(status_code, expected),
                timestamp@,
            ),
    {
        self.is_up = false;
        self.last_status_code = Some(status_code);
        self.last_checked = timestamp.to_owned();
        self.response_time_ms = Some(response_time_ms);
        self.total_checks = self.total_checks + 1;
        self.total_down = self.total_down + 1;
        let mut error = "unexpected status: got ".to_owned();
        text::push_decimal(&mut error, status_code as u64);
        error.append(", expected ");
        text::push_decimal(&mut error, expected as u64);
        self.last_error = Some(error);
        self.consecutive_failures = self.consecutive_failures + 1;
        self.recalculate_uptime();
    }

    /// Brings the uptime up to date with the counters.
    pub fn recalculate_uptime(&mut self)
        ensures
            final(self)@ == with_uptime(old(self)@),
    {
        if self.total_checks > 0 {
            self.uptime_percentage = Percentage::Share {
                part: self.total_up,
                whole: self.total_checks,
            };
        }
    }
}

/// The counters and the last result of `m` agree with each other.
pub open spec fn counters_agree(m: MetricsView) -> bool {
    &&& m.total_checks == m.total_up + m.total_down
    &&& m.consecutive_failures <= m.total_down
    &&& m.is_up ==> m.total_up > 0
    &&& m.is_up ==> m.last_status_code is Some && m.response_time_ms is Some
    &&& m.total_checks > 0 ==> (m.is_up <==> m.consecutive_failures == 0)
    &&& m.total_checks > 0 ==> (m.is_up <==> m.last_error is None)
}

/// The counters, the last result and the uptime of `m` agree with each other.
pub open spec fn consistent(m: MetricsView) -> bool {
    &&& counters_agree(m)
    &&& m.uptime_percentage == (if m.total_checks > 0 {
        Percentage::Share { part: m.total_up, whole: m.total_checks }
    } else {
        Percentage::Bits(0)
    })
}

/// Metrics start consistent. Whatever form their percentage has, the counters go on to agree with
/// every recorded check, and the uptime agrees with them again.
pub proof fn records_stay_consistent(
    m: MetricsView,
    device_id: Seq<char>,
    status_code: u16,
    answered: Option<u16>,
    response_time_ms: u64,
    measured: Option<u64>,
    error: Seq<char>,
    timestamp: Seq<char>,
    percentage: Percentage,
)
    ensures
        consistent(fresh(device_id)),
        counters_agree(m) ==> counters_agree(MetricsView { uptime_percentage: percentage, ..m }),
        counters_agree(m) && can_count_up(m) ==> consistent(
            after_success(m, status_code, response_time_ms, timestamp),
        ),
        counters_agree(m) && can_count_down(m) ==> consistent(
            after_down(m, answered, measured, error, timestamp),
        ),
{
}

/// Every recorded check is counted once, as up or as down, and a success ends a run of failures.
pub proof fn every_check_is_counted(
    m: MetricsView,
    status_code: u16,
    answered: Option<u16>,
    response_time_ms: u64,
    measured: Option<u64>,
    error: Seq<char>,
    timestamp: Seq<char>,
)
    ensures
        can_count_up(m) ==> {
            let up = after_success(m, status_code, response_time_ms, timestamp);
            &&& up.total_checks == m.total_checks + 1
            &&& up.total_up == m.total_up + 1
            &&& up.total_down == m.total_down
            &&& up.consecutive_failures == 0
        },
        can_count_down(m) ==> {
            let down = after_down(m, answered, measured, error, timestamp);
            &&& down.total_checks == m.total_checks + 1
            &&& down.total_up == m.total_up
            &&& down.total_down == m.total_down + 1
            &&& down.consecutive_failures == m.consecutive_failures + 1
        },
{
}

/// In contracts metrics have the fields that they have in code.
pub proof fn metrics_stand_for_their_fields(m: DeviceMetrics)
    ensures
        m@.device_id == m.device_id@,
        m@.is_up == m.is_up,
        m@.last_status_code == m.last_status_code,
        m@.last_checked == m.last_checked@,
        m@.response_time_ms == m.response_time_ms,
        m@.total_checks == m.total_checks,
        m@.total_up == m.total_up,
        m@.total_down == m.total_down,
        m@.uptime_percentage == m.uptime_percentage,
        m@.last_error is Some <==> m.last_error is Some,
        m.last_error matches Some(error) ==> m@.last_error == Some(error@),
        m@.consecutive_failures == m.consecutive_failures,
{
}

/// A device that was never checked is not up, nothing is known of an answer, and nothing has been
/// counted.
pub proof fn nothing_is_known_before_the_first_check(device_id: Seq<char>)
    ensures
        ({
            let m = fresh(device_id);
            &&& m.device_id == device_id
            &&& !m.is_up
            &&& m.last_status_code is None
            &&& m.last_checked == "never"@
            &&& m.response_time_ms is None
            &&& m.total_checks == 0 && m.total_up == 0 && m.total_down == 0
            &&& m.uptime_percentage == Percentage::Bits(0)
            &&& m.last_error is None
            &&& m.consecutive_failures == 0
        }),
{
}

/// After a check the metrics tell what it found, when, and how fast, they still belong to the
/// same device, and the uptime is the share of the checks that found it up.
pub proof fn metrics_tell_the_last_check(
    m: MetricsView,
    status_code: u16,
    answered: Option<u16>,
    response_time_ms: u64,
    measured: Option<u64>,
    error: Seq<char>,
    timestamp: Seq<char>,
)
    ensures
        ({
            let up = after_success(m, status_code, response_time_ms, timestamp);
            &&& up.device_id == m.device_id
            &&& up.is_up
            &&& up.last_status_code == Some(status_code)
            &&& up.last_checked == timestamp
            &&& up.response_time_ms == Some(response_time_ms)
            &&& up.last_error is None
            &&& can_count_up(m) ==> up.uptime_percentage == (Percentage::Share {
                part: (m.total_up + 1) as u64,
                whole: (m.total_checks + 1) as u64,
            })
        }),
        ({
            let down = after_down(m, answered, measured, error, timestamp);
            &&& down.device_id == m.device_id
            &&& !down.is_up
            &&& down.last_status_code == answered
            &&& down.last_checked == timestamp
            &&& down.response_time_ms == measured
            &&& down.last_error == Some(error)
            &&& can_count_down(m) ==> down.uptime_percentage == (Percentage::Share {
                part: m.total_up,
                whole: (m.total_checks + 1) as u64,
            })
        }),
{
}

/// Bringing the uptime up to date changes nothing else, and nothing at all before the first check.
pub proof fn only_the_uptime_is_recalculated(m: MetricsView)
    ensures
        ({
            let r = with_uptime(m);
            &&& r.device_id == m.device_id && r.is_up == m.is_up
            &&& r.last_status_code == m.last_status_code && r.last_checked == m.last_checked
            &&& r.response_time_ms == m.response_time_ms && r.last_error == m.last_error
            &&& r.total_checks == m.total_checks && r.total_up == m.total_up
            &&& r.total_down == m.total_down && r.consecutive_failures == m.consecutive_failures
            &&& m.total_checks == 0 ==> r.uptime_percentage == m.uptime_percentage
            &&& m.total_checks > 0 ==> r.uptime_percentage == (Percentage::Share {
                part: m.total_up,
                whole: m.total_checks,
            })
            &&& with_uptime(r) == r
        }),
{
}

/// The error for an unexpected status names the status that came, then the one that was expected.
pub proof fn unexpected_statuses_are_named(status_code: u16, expected: u16)
    ensures
        text::begins_with(
            unexpected_status_error(status_code, expected),
            "unexpected status: got "@ + text::decimal(status_code as nat) + ", expected "@,
        ),
        unexpected_status_error(status_code, expected).skip(
            ("unexpected status: got "@ + text::decimal(status_code as nat)
                + ", expected "@).len() as int,
        ) == text::decimal(expected as nat),
{
    let head = "unexpected status: got "@ + text::decimal(status_code as nat) + ", expected "@;
    text::prefixes_are_completed(head, head, text::decimal(expected as nat));
    assert((head + text::decimal(expected as nat)).skip(head.len() as int) =~= text::decimal(
        expected as nat,
    ));
}

/// A counter has room as long as it is not at its machine limit.
pub proof fn counters_have_room_up_to_their_limits(m: MetricsView)
    ensures
        can_count_up(m) <==> m.total_checks + 1 <= u64::MAX && m.total_up + 1 <= u64::MAX,
        can_count_down(m) <==> m.total_checks + 1 <= u64::MAX && m.total_down + 1 <= u64::MAX
            && m.consecutive_failures + 1 <= u32::MAX,
{
}

} // verus!
