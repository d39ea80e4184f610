//! The figures that the dashboard shows.

use vstd::prelude::*;
use vstd::string::*;

use crate::device::{Device, DeviceView};
use crate::history;
use crate::history::{CheckResult, CheckView};
use crate::metrics::{DeviceMetrics, MetricsView, Percentage};

verus! {

/// Summary data for one device row on the main dashboard (JSON API).
#[derive(Debug)]
pub struct DashboardDevice {
    pub id: String,
    pub name: String,
    pub url: String,
    pub is_up: bool,
    pub uptime_percentage: Percentage,
    pub response_time_ms: Option<u64>,
    pub last_checked: String,
    /// 288 five-minute buckets for the 24h bar: null=no data, true=up, false=down
    pub bar: Vec<Option<bool>>,
}

/// What a [`DashboardDevice`] is, in terms of its texts.
pub struct DashboardDeviceView {
    pub id: Seq<char>,
    pub name: Seq<char>,
    pub url: Seq<char>,
    pub is_up: bool,
    pub uptime_percentage: Percentage,
    pub response_time_ms: Option<u64>,
    pub last_checked: Seq<char>,
    pub bar: Seq<Option<bool>>,
}

impl View for DashboardDevice {
    type V = DashboardDeviceView;

    open spec fn view(&self) -> DashboardDeviceView {
        DashboardDeviceView {
            id: self.id@,
            name: self.name@,
            url: self.url@,
            is_up: self.is_up,
            uptime_percentage: self.uptime_percentage,
            response_time_ms: self.response_time_ms,
            last_checked: self.last_checked@,
            bar: self.bar@,
        }
    }
}

/// One device row on the main dashboard page.
#[derive(Debug)]
pub struct DashboardRow {
    /// The key under which the device is registered.
    pub id: String,
    pub name: String,
    pub is_up: bool,
    pub uptime_percentage: Percentage,
    pub response_time_ms: Option<u64>,
    pub bar: Vec<Option<bool>>,
}

/// What a [`DashboardRow`] is, in terms of its texts.
pub struct DashboardRowView {
    pub id: Seq<char>,
    pub name: Seq<char>,
    pub is_up: bool,
    pub uptime_percentage: Percentage,
    pub response_time_ms: Option<u64>,
    pub bar: Seq<Option<bool>>,
}

impl View for DashboardRow {
    type V = DashboardRowView;

    open spec fn view(&self) -> DashboardRowView {
        DashboardRowView {
            id: self.id@,
            name: self.name@,
            is_up: self.is_up,
            uptime_percentage: self.uptime_percentage,
            response_time_ms: self.response_time_ms,
            bar: self.bar@,
        }
    }
}

/// Detailed data for a single device page (JSON API).
#[derive(Debug)]
pub struct DashboardDetail {
    pub id: String,
    pub name: String,
    pub url: String,
    pub is_up: bool,
    pub uptime_24h: Percentage,
    pub uptime_all: Percentage,
    pub avg_response_ms: Option<u64>,
    pub checks_24h: u64,
    pub down_24h: u64,
    pub consecutive_failures: u32,
    pub total_checks: u64,
    pub bar: Vec<Option<bool>>,
    pub recent_checks: Vec<CheckResult>,
}

/// What a [`DashboardDetail`] is, in terms of its texts.
pub struct DashboardDetailView {
    pub id: Seq<char>,
    pub name: Seq<char>,
    pub url: Seq<char>,
    pub is_up: bool,
    pub uptime_24h: Percentage,
    pub uptime_all: Percentage,
    pub avg_response_ms: Option<u64>,
    pub checks_24h: u64,
    pub down_24h: u64,
    pub consecutive_failures: u32,
    pub total_checks: u64,
    pub bar: Seq<Option<bool>>,
    pub recent_checks: Seq<CheckView>,
}

impl View for DashboardDetail {
    type V = DashboardDetailView;

    open spec fn view(&self) -> DashboardDetailView {
        DashboardDetailView {
            id: self.id@,
            name: self.name@,
            url: self.url@,
            is_up: self.is_up,
            uptime_24h: self.uptime_24h,
            uptime_all: self.uptime_all,
            avg_response_ms: self.avg_response_ms,
            checks_24h: self.checks_24h,
            down_24h: self.down_24h,
            consecutive_failures: self.consecutive_failures,
            total_checks: self.total_checks,
            bar: self.bar@,
            recent_checks: history::check_views(self.recent_checks@),
        }
    }
}

/// The summary of a device at `now_secs`.
pub open spec fn summary(
    device: DeviceView,
    m: MetricsView,
    checks: Seq<CheckView>,
    now_secs: u64,
) -> DashboardDeviceView {
    DashboardDeviceView {
        id: device.id,
        name: device.name,
        url: device.url,
        is_up: m.is_up,
        uptime_percentage: m.uptime_percentage,
        response_time_ms: m.response_time_ms,
        last_checked: m.last_checked,
        bar: history::bar(checks, now_secs),
    }
}

/// The row of the device registered under `key` at `now_secs`.
pub open spec fn row(
    key: Seq<char>,
    device: DeviceView,
    m: MetricsView,
    checks: Seq<CheckView>,
    now_secs: u64,
) -> DashboardRowView {
    DashboardRowView {
        id: key,
        name: device.name,
        is_up: m.is_up,
        uptime_percentage: m.uptime_percentage,
        response_time_ms: m.response_time_ms,
        bar: history::bar(checks, now_secs),
    }
}

/// The share of successful checks in a history; zero for an empty one.
pub open spec fn uptime_24h(checks: Seq<CheckView>) -> Percentage {
    if checks.len() > 0 {
        Percentage::Share { part: history::count_up(checks) as u64, whole: checks.len() as u64 }
    } else {
        Percentage::Bits(0)
    }
}

/// The details of a device at `now_secs`.
pub open spec fn detail(
    device: DeviceView,
    m: MetricsView,
    checks: Seq<CheckView>,
    now_secs: u64,
) -> DashboardDetailView {
    DashboardDetailView {
        id: device.id,
        name: device.name,
        url: device.url,
        is_up: m.is_up,
        uptime_24h: uptime_24h(checks),
        uptime_all: m.uptime_percentage,
        avg_response_ms: history::avg_response_ms(checks),
        checks_24h: checks.len() as u64,
        down_24h: (checks.len() - history::count_up(checks)) as u64,
        consecutive_failures: m.consecutive_failures,
        total_checks: m.total_checks,
        bar: history::bar(checks, now_secs),
        recent_checks: history::recent(checks),
    }
}

/// The summary of a device at `now_secs`.
pub fn dashboard_device(
    device: &Device,
    metrics: &DeviceMetrics,
    history: &[CheckResult],
    now_secs: u64,
) -> (r: DashboardDevice)
    ensures
        r@ == summary(device@, metrics@, history::check_views(history@), now_secs),
{
    DashboardDevice {
        id: device.id.clone(),
        name: device.name.clone(),
        url: device.url.clone(),
        is_up: metrics.is_up,
        uptime_percentage: metrics.uptime_percentage,
        response_time_ms: metrics.response_time_ms,
        last_checked: metrics.last_checked.clone(),
        bar: history::compute_24h_buckets(history, now_secs),
    }
}

/// The row of the device registered under `key` at `now_secs`.
pub fn dashboard_row(
    key: &str,
    device: &Device,
    metrics: &DeviceMetrics,
    history: &[CheckResult],
    now_secs: u64,
) -> (r: DashboardRow)
    ensures
        r@ == row(key@, device@, metrics@, history::check_views(history@), now_secs),
{
    DashboardRow {
        id: key.to_owned(),
        name: device.name.clone(),
        is_up: metrics.is_up,
        uptime_percentage: metrics.uptime_percentage,
        response_time_ms: metrics.response_time_ms,
        bar: history::compute_24h_buckets(history, now_secs),
    }
}

/// The details of a device at `now_secs`.
pub fn dashboard_detail(
    device: &Device,
    metrics: &DeviceMetrics,
    history: &[CheckResult],
    now_secs: u64,
) -> (r: DashboardDetail)
    requires
        history::response_times_addable(history::check_views(history@)),
    ensures
        r@ == detail(device@, metrics@, history::check_views(history@), now_secs),
{
    let stats = history::history_stats(history);
    let uptime_24h = if stats.checks > 0 {
        Percentage::Share { part: stats.up, whole: stats.checks }
    } else {
        Percentage::Bits(0)
    };
    DashboardDetail {
        id: device.id.clone(),
        name: device.name.clone(),
        url: device.url.clone(),
        is_up: metrics.is_up,
        uptime_24h,
        uptime_all: metrics.uptime_percentage,
        avg_response_ms: stats.avg_response_ms,
        checks_24h: stats.checks,
        down_24h: stats.down,
        consecutive_failures: metrics.consecutive_failures,
        total_checks: metrics.total_checks,
        bar: history::compute_24h_buckets(history, now_secs),
        recent_checks: history::recent_checks(history),
    }
}

/// In contracts a summary and a row have the fields that they have in code.
pub proof fn summaries_stand_for_their_fields(d: DashboardDevice, r: DashboardRow)
    ensures
        d@.id == d.id@,
        d@.name == d.name@,
        d@.url == d.url@,
        d@.is_up == d.is_up,
        d@.uptime_percentage == d.uptime_percentage,
        d@.response_time_ms == d.response_time_ms,
        d@.last_checked == d.last_checked@,
        d@.bar == d.bar@,
        r@.id == r.id@,
        r@.name == r.name@,
        r@.is_up == r.is_up,
        r@.uptime_percentage == r.uptime_percentage,
        r@.response_time_ms == r.response_time_ms,
        r@.bar == r.bar@,
{
}

/// In contracts details have the fields that they have in code.
pub proof fn details_stand_for_their_fields(d: DashboardDetail)
    ensures
        d@.id == d.id@,
        d@.name == d.name@,
        d@.url == d.url@,
        d@.is_up == d.is_up,
        d@.uptime_24h == d.uptime_24h,
        d@.uptime_all == d.uptime_all,
        d@.avg_response_ms == d.avg_response_ms,
        d@.checks_24h == d.checks_24h,
        d@.down_24h == d.down_24h,
        d@.consecutive_failures == d.consecutive_failures,
        d@.total_checks == d.total_checks,
        d@.bar == d.bar@,
        d@.recent_checks.len() == d.recent_checks@.len(),
        forall|i: int|
            0 <= i < d.recent_checks@.len() ==> #[trigger] d@.recent_checks[i]
                == d.recent_checks@[i]@,
{
}

/// The row of a device shows the key it is registered by, its name, and what its metrics hold: it
/// is up exactly if they say so, and its uptime and response time are theirs. The summary shows
/// the same, and in addition the id and URL of the device and when it was last checked.
pub proof fn the_dashboard_shows_the_metrics(
    key: Seq<char>,
    device: DeviceView,
    m: MetricsView,
    checks: Seq<CheckView>,
    now_secs: u64,
)
    ensures
        ({
            let r = row(key, device, m, checks, now_secs);
            let s = summary(device, m, checks, now_secs);
            &&& r.id == key
            &&& r.name == device.name && s.name == device.name
            &&& r.is_up <==> m.is_up
            &&& s.is_up <==> m.is_up
            &&& r.uptime_percentage == m.uptime_percentage
            &&& s.uptime_percentage == m.uptime_percentage
            &&& r.response_time_ms == m.response_time_ms
            &&& s.response_time_ms == m.response_time_ms
            &&& s.id == device.id
            &&& s.url == device.url
            &&& s.last_checked == m.last_checked
            &&& r.bar == s.bar
        }),
{
}

/// Every bar of a device, on the main dashboard as in its details, is that of its whole history:
/// a segment shows data exactly if a check of the history lies in it, and a failure exactly if
/// one that failed does.
pub proof fn bars_show_the_whole_history(
    key: Seq<char>,
    device: DeviceView,
    m: MetricsView,
    checks: Seq<CheckView>,
    now_secs: u64,
    k: int,
)
    requires
        0 <= k < 288,
    ensures
        ({
            let bar = detail(device, m, checks, now_secs).bar;
            &&& bar == summary(device, m, checks, now_secs).bar
            &&& bar == row(key, device, m, checks, now_secs).bar
            &&& bar.len() == 288
            &&& bar[k] is Some <==> exists|i: int|
                0 <= i < checks.len() && history::lies_in_segment(
                    (#[trigger] checks[i]).epoch_secs,
                    now_secs,
                    k,
                )
            &&& bar[k] == Some(false) <==> exists|i: int|
                0 <= i < checks.len() && history::lies_in_segment(
                    (#[trigger] checks[i]).epoch_secs,
                    now_secs,
                    k,
                ) && !checks[i].is_up
        }),
{
    history::segments_show_their_checks(checks, now_secs, k);
}

/// The details of a device show the device, what its metrics hold, and the figures of its whole
/// history: how many checks it holds, how many of them failed, the share of those that did not,
/// and the average response time; of the checks they list the newest.
pub proof fn details_show_metrics_and_history(
    device: DeviceView,
    m: MetricsView,
    checks: Seq<CheckView>,
    now_secs: u64,
    low: u64,
    high: u64,
)
    requires
        checks.len() <= u64::MAX,
    ensures
        ({
            let d = detail(device, m, checks, now_secs);
            let up = checks.filter(|c: CheckView| c.is_up).len();
            &&& d.id == device.id && d.name == device.name && d.url == device.url
            &&& d.is_up <==> m.is_up
            &&& d.uptime_all == m.uptime_percentage
            &&& d.consecutive_failures == m.consecutive_failures
            &&& d.total_checks == m.total_checks
            &&& d.checks_24h == checks.len()
            &&& up + d.down_24h == checks.len()
            &&& checks.len() > 0 ==> (d.uptime_24h matches Percentage::Share { part, whole } && part
                == up && whole == checks.len())
            &&& checks.len() == 0 ==> d.uptime_24h == Percentage::Bits(0)
            &&& d.avg_response_ms is Some <==> exists|i: int|
                0 <= i < checks.len() && (#[trigger] checks[i]).response_time_ms is Some
            &&& d.avg_response_ms == history::avg_response_ms(checks)
            &&& (forall|i: int|
                0 <= i < checks.len() ==> ((#[trigger] checks[i]).response_time_ms matches Some(ms)
                    ==> low <= ms <= high)) ==> (d.avg_response_ms matches Some(avg) ==> low <= avg
                <= high)
            &&& d.recent_checks == history::newest_first(checks).take(
                if checks.len() < 50 {
                    checks.len() as int
                } else {
                    50
                },
            )
        }),
{
    up_checks_are_counted(checks);
    history::the_average_lies_between_the_times(checks, low, high);
    history::recent_checks_are_the_newest(checks);
}

proof fn up_checks_are_counted(checks: Seq<CheckView>)
    ensures
        history::count_up(checks) == checks.filter(|c: CheckView| c.is_up).len(),
        history::count_up(checks) <= checks.len(),
    decreases checks.len(),
{
    reveal(Seq::filter);
    if checks.len() > 0 {
        up_checks_are_counted(checks.drop_last());
    }
}

} // verus!
