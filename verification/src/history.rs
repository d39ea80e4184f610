//! The check history of a device and what is computed from it.

use vstd::prelude::*;
use vstd::string::*;

use crate::metrics;
use crate::text;

verus! {

/// How long a check stays in the history, in seconds.
pub const HISTORY_RETENTION_SECS: u64 = 86400;

/// The number of segments of the 24 hour bar.
pub const NUM_BUCKETS: u64 = 288;

/// The length of a segment of the 24 hour bar, in seconds.
pub const BUCKET_SECS: u64 = 300;

/// How many checks the detail page lists.
pub const RECENT_CHECKS: usize = 50;

/// A single check result, stored in the history for 24h status bars.
#[derive(Debug)]
pub struct CheckResult {
    /// Unix epoch seconds when the check occurred.
    pub epoch_secs: u64,
    /// ISO timestamp string.
    pub timestamp: String,
    /// Whether the check was successful.
    pub is_up: bool,
    /// HTTP status code received (if any).
    pub status_code: Option<u16>,
    /// Response time in milliseconds (if any).
    pub response_time_ms: Option<u64>,
    /// Error message (if failed).
    pub error: Option<String>,
}

/// What a [`CheckResult`] is, in terms of its texts.
pub struct CheckView {
    pub epoch_secs: u64,
    pub timestamp: Seq<char>,
    pub is_up: bool,
    pub status_code: Option<u16>,
    pub response_time_ms: Option<u64>,
    pub error: Option<Seq<char>>,
}

impl View for CheckResult {
    type V = CheckView;

    open spec fn view(&self) -> CheckView {
        CheckView {
            epoch_secs: self.epoch_secs,
            timestamp: self.timestamp@,
            is_up: self.is_up,
            status_code: self.status_code,
            response_time_ms: self.response_time_ms,
            error: text::optional_text(self.error),
        }
    }
}

impl Clone for CheckResult {
    fn clone(&self) -> (r: Self)
        ensures
            r == *self,
    {
        CheckResult {
            epoch_secs: self.epoch_secs,
            timestamp: self.timestamp.clone(),
            is_up: self.is_up,
            status_code: self.status_code,
            response_time_ms: self.response_time_ms,
            error: metrics::clone_optional(&self.error),
        }
    }
}

/// The checks `checks` as they appear in contracts.
pub open spec fn check_views(checks: Seq<CheckResult>) -> Seq<CheckView> {
    checks.map_values(|c: CheckResult| c@)
}

/// The history of one device.
#[derive(Debug)]
pub struct DeviceHistory {
    pub device_id: String,
    pub history: Vec<CheckResult>,
}

/// What a [`DeviceHistory`] is, in terms of its texts.
pub struct DeviceHistoryView {
    pub device_id: Seq<char>,
    pub history: Seq<CheckView>,
}

impl View for DeviceHistory {
    type V = DeviceHistoryView;

    open spec fn view(&self) -> DeviceHistoryView {
        DeviceHistoryView { device_id: self.device_id@, history: check_views(self.history@) }
    }
}

/// The histories `histories` as they appear in contracts.
pub open spec fn history_views(histories: Seq<DeviceHistory>) -> Seq<DeviceHistoryView> {
    histories.map_values(|h: DeviceHistory| h@)
}

/// The start of the 24 hours that end at `now_secs`.
pub open spec fn window_start(now_secs: u64) -> int {
    if now_secs >= HISTORY_RETENTION_SECS {
        now_secs - HISTORY_RETENTION_SECS
    } else {
        0
    }
}

/// Whether a check belongs to the 24 hours that end at `now_secs`, or lies after them.
pub open spec fn kept(now_secs: u64) -> spec_fn(CheckView) -> bool {
    |c: CheckView| c.epoch_secs >= window_start(now_secs)
}

/// `history` without the checks that are more than 24 hours older than `now_secs`.
pub open spec fn pruned(history: Seq<CheckView>, now_secs: u64) -> Seq<CheckView> {
    history.filter(kept(now_secs))
}

proof fn filter_step<T>(s: Seq<T>, pred: spec_fn(T) -> bool, n: int)
    requires
        0 <= n < s.len(),
    ensures
        s.take(n + 1).filter(pred) == if pred(s[n]) {
            s.take(n).filter(pred).push(s[n])
        } else {
            s.take(n).filter(pred)
        },
{
    reveal(Seq::filter);
    assert(s.take(n + 1).drop_last() == s.take(n));
    assert(s.take(n + 1).last() == s[n]);
}

/// Takes the checks that are more than 24 hours older than `now_secs` out of `history`.
fn without_outdated(history: Vec<CheckResult>, now_secs: u64) -> (r: Vec<CheckResult>)
    ensures
        check_views(r@) == pruned(check_views(history@), now_secs),
{
    let cutoff: u64 = now_secs.saturating_sub(HISTORY_RETENTION_SECS);
    let ghost all = check_views(history@);
    let mut r: Vec<CheckResult> = Vec::new();
    proof {
        reveal(Seq::filter);
        assert(all.take(0).filter(kept(now_secs)) == Seq::<CheckView>::empty());
    }
    for c in it: history
        invariant
            cutoff == window_start(now_secs),
            all == check_views(it.seq()),
            check_views(r@) == all.take(it.index()).filter(kept(now_secs)),
    {
        proof {
            filter_step(all, kept(now_secs), it.index());
        }
        let ghost done = check_views(r@);
        if c.epoch_secs >= cutoff {
            r.push(c);
            assert(check_views(r@) =~= done.push(c@));
        }
    }
    assert(all.take(all.len() as int) == all);
    r
}

/// Append a check result and prune entries older than 24h.
pub fn append_and_prune_history(
    history: Vec<CheckResult>,
    now_secs: u64,
    result: CheckResult,
) -> (r: Vec<CheckResult>)
    ensures
        check_views(r@) == pruned(check_views(history@), now_secs).push(result@),
{
    let mut r = without_outdated(history, now_secs);
    let ghost kept_checks = check_views(r@);
    r.push(result);
    assert(check_views(r@) =~= kept_checks.push(result@));
    r
}

/// Whether pruning takes checks out of a history.
pub open spec fn outdated(now_secs: u64) -> spec_fn(DeviceHistoryView) -> bool {
    |h: DeviceHistoryView| pruned(h.history, now_secs).len() != h.history.len()
}

/// A history after pruning.
pub open spec fn pruned_history(now_secs: u64) -> spec_fn(DeviceHistoryView) -> DeviceHistoryView {
    |h: DeviceHistoryView|
        DeviceHistoryView { device_id: h.device_id, history: pruned(h.history, now_secs) }
}

/// The histories that have to be written back when all of `histories` are pruned.
pub open spec fn rewritten(histories: Seq<DeviceHistoryView>, now_secs: u64) -> Seq<
    DeviceHistoryView,
> {
    histories.filter(outdated(now_secs)).map_values(pruned_history(now_secs))
}

/// Prune all device histories; returns those that changed, which are to be saved.
pub fn prune_all_histories(histories: Vec<DeviceHistory>, now_secs: u64) -> (r: Vec<DeviceHistory>)
    ensures
        history_views(r@) == rewritten(history_views(histories@), now_secs),
{
    let ghost all = history_views(histories@);
    let mut r: Vec<DeviceHistory> = Vec::new();
    proof {
        reveal(Seq::filter);
        assert(all.take(0).filter(outdated(now_secs)) == Seq::<DeviceHistoryView>::empty());
    }
    for h in it: histories
        invariant
            all == history_views(it.seq()),
            history_views(r@) == all.take(it.index()).filter(outdated(now_secs)).map_values(
                pruned_history(now_secs),
            ),
    {
        proof {
            filter_step(all, outdated(now_secs), it.index());
        }
        let ghost done = history_views(r@);
        let ghost hv = h@;
        let DeviceHistory { device_id, history } = h;
        let before = history.len();
        let history = without_outdated(history, now_secs);
        assert(check_views(history@).len() == history@.len());
        if history.len() != before {
            let pruned = DeviceHistory { device_id, history };
            r.push(pruned);
            assert(history_views(r@) =~= done.push(pruned_history(now_secs)(hv)));
        }
    }
    assert(all.take(all.len() as int) == all);
    r
}

/// The segment of the 24 hour bar for a check at `epoch_secs`; what lies after the 24 hours
/// falls into the last one.
pub open spec fn bucket_of(epoch_secs: u64, now_secs: u64) -> int {
    let k = (epoch_secs - window_start(now_secs)) / BUCKET_SECS as int;
    if k < NUM_BUCKETS {
        k
    } else {
        NUM_BUCKETS - 1
    }
}

/// The check `c` belongs to segment `k` of the bar.
pub open spec fn in_bucket(c: CheckView, now_secs: u64, k: int) -> bool {
    c.epoch_secs >= window_start(now_secs) && bucket_of(c.epoch_secs, now_secs) == k
}

/// Segment `k` of the bar: no data if no check belongs to it, else up if all that do were up.
pub open spec fn bucket(history: Seq<CheckView>, now_secs: u64, k: int) -> Option<bool> {
    if exists|i: int| 0 <= i < history.len() && in_bucket(#[trigger] history[i], now_secs, k) {
        Some(
            forall|i: int|
                0 <= i < history.len() && in_bucket(#[trigger] history[i], now_secs, k)
                    ==> history[i].is_up,
        )
    } else {
        None
    }
}

/// The 24 hour bar of `history`.
pub open spec fn bar(history: Seq<CheckView>, now_secs: u64) -> Seq<Option<bool>> {
    Seq::new(NUM_BUCKETS as nat, |k: int| bucket(history, now_secs, k))
}

proof fn bucket_step(history: Seq<CheckView>, now_secs: u64, n: int, k: int)
    requires
        0 <= n < history.len(),
    ensures
        bucket(history.take(n + 1), now_secs, k) == if in_bucket(history[n], now_secs, k) {
            match bucket(history.take(n), now_secs, k) {
                None => Some(history[n].is_up),
                Some(prev) => Some(prev && history[n].is_up),
            }
        } else {
            bucket(history.take(n), now_secs, k)
        },
{
    let a = history.take(n);
    let b = history.take(n + 1);
    assert(b[n] == history[n]);
    assert forall|i: int| 0 <= i < n implies a[i] == b[i] by {}
    if exists|i: int| 0 <= i < a.len() && in_bucket(#[trigger] a[i], now_secs, k) {
        let i = choose|i: int| 0 <= i < a.len() && in_bucket(#[trigger] a[i], now_secs, k);
        assert(in_bucket(b[i], now_secs, k));
    }
    if exists|i: int|
        0 <= i < a.len() && in_bucket(#[trigger] a[i], now_secs, k) && !a[i].is_up {
        let i = choose|i: int|
            0 <= i < a.len() && in_bucket(#[trigger] a[i], now_secs, k) && !a[i].is_up;
        assert(in_bucket(b[i], now_secs, k) && !b[i].is_up);
    }
}

/// Compute 24h status buckets from check history.
/// Returns 288 five-minute buckets: None=no data, Some(true)=up, Some(false)=down.
pub fn compute_24h_buckets(history: &[CheckResult], now_secs: u64) -> (r: Vec<Option<bool>>)
    ensures
        r@ == bar(check_views(history@), now_secs),
{
    let start: u64 = now_secs.saturating_sub(HISTORY_RETENTION_SECS);
    let ghost all = check_views(history@);
    let mut buckets: Vec<Option<bool>> = Vec::new();
    let mut k: u64 = 0;
    while k < NUM_BUCKETS
        invariant
            k <= NUM_BUCKETS,
            buckets@ == Seq::new(k as nat, |j: int| None::<bool>),
        decreases NUM_BUCKETS - k,
    {
        buckets.push(None);
        k = k + 1;
    }
    assert(buckets@ =~= bar(all.take(0), now_secs));
    let mut i: usize = 0;
    while i < history.len()
        invariant
            i <= history@.len(),
            all == check_views(history@),
            start == window_start(now_secs),
            buckets@ == bar(all.take(i as int), now_secs),
        decreases history@.len() - i,
    {
        let check = &history[i];
        let ghost before = buckets@;
        proof {
            assert(all[i as int] == check@);
            assert forall|j: int| 0 <= j < NUM_BUCKETS implies #[trigger] bar(
                all.take(i + 1),
                now_secs,
            )[j] == (if in_bucket(check@, now_secs, j) {
                match before[j] {
                    None => Some(check.is_up),
                    Some(prev) => Some(prev && check.is_up),
                }
            } else {
                before[j]
            }) by {
                bucket_step(all, now_secs, i as int, j);
            }
        }
        if check.epoch_secs >= start {
            let offset: u64 = check.epoch_secs - start;
            let slot: u64 = offset / BUCKET_SECS;
            let idx: usize = if slot < NUM_BUCKETS {
                slot as usize
            } else {
                (NUM_BUCKETS - 1) as usize
            };
            assert(idx == bucket_of(check.epoch_secs, now_secs));
            let merged: bool = match buckets[idx] {
                None => check.is_up,
                Some(prev) => prev && check.is_up,
            };
            buckets[idx] = Some(merged);
        }
        assert(buckets@ =~= bar(all.take(i + 1), now_secs));
        i = i + 1;
    }
    assert(all.take(all.len() as int) == all);
    buckets
}

/// A check of the last 24 hours falls into exactly one segment of the bar: a failed one makes it
/// show a failure, and a successful one makes it show data.
pub proof fn checks_show_in_the_bar(history: Seq<CheckView>, now_secs: u64, i: int)
    requires
        0 <= i < history.len(),
        history[i].epoch_secs >= window_start(now_secs),
    ensures
        bar(history, now_secs).len() == NUM_BUCKETS,
        ({
            let k = bucket_of(history[i].epoch_secs, now_secs);
            &&& 0 <= k < NUM_BUCKETS
            &&& bar(history, now_secs)[k] is Some
            &&& !history[i].is_up ==> bar(history, now_secs)[k] == Some(false)
        }),
{
    let k = bucket_of(history[i].epoch_secs, now_secs);
    assert(in_bucket(history[i], now_secs, k));
}

/// Pruning a history does not change its 24 hour bar.
pub proof fn pruning_keeps_the_bar(history: Seq<CheckView>, now_secs: u64)
    ensures
        bar(pruned(history, now_secs), now_secs) == bar(history, now_secs),
    decreases history.len(),
{
    reveal(Seq::filter);
    if history.len() > 0 {
        let n = history.len() - 1;
        let rest = history.drop_last();
        pruning_keeps_the_bar(rest, now_secs);
        assert(history.take(n) == rest);
        assert(history.take(n + 1) == history);
        let p = pruned(history, now_secs);
        let q = pruned(rest, now_secs);
        if kept(now_secs)(history.last()) {
            assert(p == q.push(history.last()));
            assert(p.take(q.len() as int) == q);
            assert(p.take(p.len() as int) == p);
        }
        assert forall|k: int| 0 <= k < NUM_BUCKETS implies #[trigger] bar(p, now_secs)[k] == bar(
            history,
            now_secs,
        )[k] by {
            bucket_step(history, now_secs, n, k);
            assert(bar(q, now_secs)[k] == bar(rest, now_secs)[k]);
            if kept(now_secs)(history.last()) {
                bucket_step(p, now_secs, q.len() as int, k);
            }
        }
        assert(bar(p, now_secs) =~= bar(history, now_secs));
    } else {
        assert(pruned(history, now_secs) == history);
    }
}

/// After pruning exactly the checks of the last 24 hours are left, and pruning again at the same
/// time takes nothing out.
pub proof fn pruning_keeps_the_window(history: Seq<CheckView>, now_secs: u64)
    ensures
        forall|c: CheckView| #[trigger]
            pruned(history, now_secs).contains(c) <==> history.contains(c) && c.epoch_secs
                >= window_start(now_secs),
        pruned(pruned(history, now_secs), now_secs) == pruned(history, now_secs),
    decreases history.len(),
{
    reveal(Seq::filter);
    let p = pruned(history, now_secs);
    if history.len() > 0 {
        let rest = history.drop_last();
        let q = pruned(rest, now_secs);
        pruning_keeps_the_window(rest, now_secs);
        assert(history == rest.push(history.last()));
        assert forall|c: CheckView| #[trigger] p.contains(c) <==> history.contains(c)
            && c.epoch_secs >= window_start(now_secs) by {
            assert(history.contains(c) <==> rest.contains(c) || c == history.last()) by {
                if rest.contains(c) {
                    let i = choose|i: int| 0 <= i < rest.len() && rest[i] == c;
                    assert(history[i] == c);
                }
                assert(history[history.len() - 1] == history.last());
            }
            assert(q.contains(c) <==> rest.contains(c) && c.epoch_secs >= window_start(now_secs));
            if kept(now_secs)(history.last()) {
                assert(p == q.push(history.last()));
                assert(p[p.len() - 1] == history.last());
                if q.contains(c) {
                    let i = choose|i: int| 0 <= i < q.len() && q[i] == c;
                    assert(p[i] == c);
                }
            }
        }
        if kept(now_secs)(history.last()) {
            assert(p.drop_last() == q);
        }
    }
}

proof fn filter_of_same_length<T>(s: Seq<T>, pred: spec_fn(T) -> bool)
    ensures
        s.filter(pred).len() <= s.len(),
        s.filter(pred).len() == s.len() ==> s.filter(pred) == s,
    decreases s.len(),
{
    reveal(Seq::filter);
    if s.len() > 0 {
        filter_of_same_length(s.drop_last(), pred);
        assert(s.drop_last().push(s.last()) == s);
    }
}

/// A history that pruning leaves as long as it was is left as it was.
pub proof fn unchanged_by_pruning(h: DeviceHistoryView, now_secs: u64)
    requires
        !outdated(now_secs)(h),
    ensures
        pruned(h.history, now_secs) == h.history,
{
    filter_of_same_length(h.history, kept(now_secs));
}

/// One more history to be pruned adds itself to those that are written back, if it changes.
pub proof fn rewritten_step(
    histories: Seq<DeviceHistoryView>,
    h: DeviceHistoryView,
    now_secs: u64,
)
    ensures
        rewritten(histories.push(h), now_secs) == if outdated(now_secs)(h) {
            rewritten(histories, now_secs).push(pruned_history(now_secs)(h))
        } else {
            rewritten(histories, now_secs)
        },
{
    let all = histories.push(h);
    let n = histories.len() as int;
    filter_step(all, outdated(now_secs), n);
    assert(all.take(n) == histories);
    assert(all.take(n + 1) == all);
    assert(rewritten(all, now_secs) =~= if outdated(now_secs)(h) {
        rewritten(histories, now_secs).push(pruned_history(now_secs)(h))
    } else {
        rewritten(histories, now_secs)
    });
}

/// Nothing is written back where pruning takes nothing out of any history.
pub proof fn nothing_rewritten(histories: Seq<DeviceHistoryView>, now_secs: u64)
    requires
        forall|i: int| 0 <= i < histories.len() ==> !outdated(now_secs)(#[trigger] histories[i]),
    ensures
        rewritten(histories, now_secs) == Seq::<DeviceHistoryView>::empty(),
{
    filter_none(histories, outdated(now_secs));
}

/// The number of checks that found the device up.
pub open spec fn count_up(history: Seq<CheckView>) -> nat
    decreases history.len(),
{
    if history.len() == 0 {
        0
    } else {
        count_up(history.drop_last()) + (if history.last().is_up {
            1nat
        } else {
            0
        })
    }
}

/// The number of checks with a measured response time.
pub open spec fn count_timed(history: Seq<CheckView>) -> nat
    decreases history.len(),
{
    if history.len() == 0 {
        0
    } else {
        count_timed(history.drop_last()) + (if history.last().response_time_ms is Some {
            1nat
        } else {
            0
        })
    }
}

/// The sum of the measured response times.
pub open spec fn total_response_ms(history: Seq<CheckView>) -> nat
    decreases history.len(),
{
    if history.len() == 0 {
        0
    } else {
        total_response_ms(history.drop_last()) + (match history.last().response_time_ms {
            Some(ms) => ms as nat,
            None => 0,
        })
    }
}

/// The mean of the measured response times, rounded down.
pub open spec fn avg_response_ms(history: Seq<CheckView>) -> Option<u64> {
    if count_timed(history) == 0 {
        None
    } else {
        Some((total_response_ms(history) / count_timed(history)) as u64)
    }
}

/// The sum of the measured response times can be computed in 64 bits.
pub open spec fn response_times_addable(history: Seq<CheckView>) -> bool {
    total_response_ms(history) <= u64::MAX
}

/// Figures computed from a history.
#[derive(Debug, Clone, Copy)]
pub struct HistoryStats {
    pub checks: u64,
    pub up: u64,
    pub down: u64,
    pub avg_response_ms: Option<u64>,
}

proof fn counts_bounded(history: Seq<CheckView>)
    ensures
        count_up(history) <= history.len(),
        count_timed(history) <= history.len(),
    decreases history.len(),
{
    if history.len() > 0 {
        counts_bounded(history.drop_last());
    }
}

proof fn totals_step(history: Seq<CheckView>, n: int)
    requires
        0 <= n < history.len(),
    ensures
        count_up(history.take(n + 1)) == count_up(history.take(n)) + (if history[n].is_up {
            1nat
        } else {
            0
        }),
        count_timed(history.take(n + 1)) == count_timed(history.take(n)) + (
        if history[n].response_time_ms is Some {
            1nat
        } else {
            0
        }),
        total_response_ms(history.take(n + 1)) == total_response_ms(history.take(n)) + (
        match history[n].response_time_ms {
            Some(ms) => ms as nat,
            None => 0,
        }),
        count_up(history.take(n)) <= n,
        count_timed(history.take(n)) <= n,
{
    assert(history.take(n + 1).drop_last() == history.take(n));
    assert(history.take(n + 1).last() == history[n]);
    counts_bounded(history.take(n));
}

proof fn total_monotone(history: Seq<CheckView>, n: int)
    requires
        0 <= n <= history.len(),
    ensures
        total_response_ms(history.take(n)) <= total_response_ms(history),
    decreases history.len() - n,
{
    if n < history.len() {
        totals_step(history, n);
        total_monotone(history, n + 1);
    } else {
        assert(history.take(n) == history);
    }
}

/// Whether the sum of the measured response times can be computed in 64 bits.
pub fn response_times_fit(history: &[CheckResult]) -> (r: bool)
    ensures
        r == response_times_addable(check_views(history@)),
{
    let ghost all = check_views(history@);
    let mut sum: u64 = 0;
    let mut i: usize = 0;
    while i < history.len()
        invariant
            i <= history@.len(),
            all == check_views(history@),
            sum == total_response_ms(all.take(i as int)),
        decreases history@.len() - i,
    {
        proof {
            totals_step(all, i as int);
            total_monotone(all, i + 1);
        }
        if let Some(ms) = history[i].response_time_ms {
            match sum.checked_add(ms) {
                Some(next) => {
                    sum = next;
                },
                None => {
                    return false;
                },
            }
        }
        i = i + 1;
    }
    assert(all.take(all.len() as int) == all);
    true
}

/// The figures of `history`.
pub fn history_stats(history: &[CheckResult]) -> (r: HistoryStats)
    requires
        response_times_addable(check_views(history@)),
    ensures
        r.checks == history@.len(),
        r.up == count_up(check_views(history@)),
        r.down == history@.len() - count_up(check_views(history@)),
        r.avg_response_ms == avg_response_ms(check_views(history@)),
{
    let ghost all = check_views(history@);
    let mut up: u64 = 0;
    let mut timed: u64 = 0;
    let mut sum: u64 = 0;
    let mut i: usize = 0;
    while i < history.len()
        invariant
            i <= history@.len(),
            all == check_views(history@),
            response_times_addable(all),
            up == count_up(all.take(i as int)),
            up <= i,
            timed == count_timed(all.take(i as int)),
            timed <= i,
            sum == total_response_ms(all.take(i as int)),
        decreases history@.len() - i,
    {
        proof {
            totals_step(all, i as int);
            total_monotone(all, i + 1);
        }
        if history[i].is_up {
            up = up + 1;
        }
        if let Some(ms) = history[i].response_time_ms {
            timed = timed + 1;
            sum = sum + ms;
        }
        i = i + 1;
    }
    assert(all.take(all.len() as int) == all);
    let checks: u64 = history.len() as u64;
    let avg_response_ms: Option<u64> = if timed == 0 {
        None
    } else {
        Some(sum / timed)
    };
    HistoryStats { checks, up, down: checks - up, avg_response_ms }
}

/// The number of checks at the front of `sorted` that are not older than `c`.
pub open spec fn rank(sorted: Seq<CheckView>, c: CheckView) -> int
    decreases sorted.len(),
{
    if sorted.len() == 0 || sorted[0].epoch_secs < c.epoch_secs {
        0
    } else {
        1 + rank(sorted.skip(1), c)
    }
}

/// The checks from the newest to the oldest; checks of the same second keep their order.
pub open spec fn newest_first(history: Seq<CheckView>) -> Seq<CheckView>
    decreases history.len(),
{
    if history.len() == 0 {
        history
    } else {
        let sorted = newest_first(history.drop_last());
        sorted.insert(rank(sorted, history.last()), history.last())
    }
}

/// The newest checks, from the newest to the oldest, at most as many as the detail page lists.
pub open spec fn recent(history: Seq<CheckView>) -> Seq<CheckView> {
    let sorted = newest_first(history);
    if sorted.len() <= RECENT_CHECKS {
        sorted
    } else {
        sorted.take(RECENT_CHECKS as int)
    }
}

proof fn rank_bounds(sorted: Seq<CheckView>, c: CheckView)
    ensures
        0 <= rank(sorted, c) <= sorted.len(),
        forall|i: int|
            0 <= i < rank(sorted, c) ==> (#[trigger] sorted[i]).epoch_secs >= c.epoch_secs,
        rank(sorted, c) < sorted.len() ==> sorted[rank(sorted, c)].epoch_secs < c.epoch_secs,
    decreases sorted.len(),
{
    if sorted.len() == 0 || sorted[0].epoch_secs < c.epoch_secs {
    } else {
        rank_bounds(sorted.skip(1), c);
        assert forall|i: int| 0 <= i < rank(sorted, c) implies (#[trigger] sorted[i]).epoch_secs
            >= c.epoch_secs by {
            if i > 0 {
                assert(sorted[i] == sorted.skip(1)[i - 1]);
            }
        }
    }
}

proof fn rank_from(sorted: Seq<CheckView>, c: CheckView, r: int)
    requires
        0 <= r <= sorted.len(),
        forall|i: int| 0 <= i < r ==> (#[trigger] sorted[i]).epoch_secs >= c.epoch_secs,
        r < sorted.len() ==> sorted[r].epoch_secs < c.epoch_secs,
    ensures
        rank(sorted, c) == r,
{
    rank_bounds(sorted, c);
    let q = rank(sorted, c);
    if q < r {
        assert(sorted[q].epoch_secs >= c.epoch_secs);
    } else if r < q {
        assert(sorted[r].epoch_secs >= c.epoch_secs);
    }
}

proof fn newest_first_len(history: Seq<CheckView>)
    ensures
        newest_first(history).len() == history.len(),
    decreases history.len(),
{
    if history.len() > 0 {
        newest_first_len(history.drop_last());
        rank_bounds(newest_first(history.drop_last()), history.last());
    }
}

/// The list of recent checks after one more check, from the list before it.
proof fn recent_step(history: Seq<CheckView>, n: int)
    requires
        0 <= n < history.len(),
    ensures
        ({
            let before = recent(history.take(n));
            let r = rank(before, history[n]);
            let grown = before.insert(r, history[n]);
            &&& 0 <= r <= before.len()
            &&& before.len() <= RECENT_CHECKS
            &&& recent(history.take(n + 1)) == if grown.len() <= RECENT_CHECKS {
                grown
            } else {
                grown.take(RECENT_CHECKS as int)
            }
        }),
{
    let c = history[n];
    let sorted = newest_first(history.take(n));
    let before = recent(history.take(n));
    assert(history.take(n + 1).drop_last() == history.take(n));
    assert(history.take(n + 1).last() == c);
    newest_first_len(history.take(n));
    newest_first_len(history.take(n + 1));
    rank_bounds(sorted, c);
    rank_bounds(before, c);
    let r = rank(sorted, c);
    let q = rank(before, c);
    if sorted.len() > RECENT_CHECKS {
        if r < RECENT_CHECKS {
            rank_from(before, c, r);
        } else {
            rank_from(before, c, RECENT_CHECKS as int);
        }
        assert(sorted.insert(r, c).take(RECENT_CHECKS as int) =~= before.insert(q, c).take(
            RECENT_CHECKS as int,
        ));
    }
}

/// The checks at the positions `at` of `history`.
spec fn picked(history: Seq<CheckView>, at: Seq<usize>) -> Seq<CheckView> {
    at.map_values(|i: usize| history[i as int])
}

/// The newest checks of `history`, from the newest to the oldest.
pub fn recent_checks(history: &[CheckResult]) -> (r: Vec<CheckResult>)
    ensures
        check_views(r@) == recent(check_views(history@)),
{
    let ghost all = check_views(history@);
    let mut at: Vec<usize> = Vec::new();
    let mut i: usize = 0;
    assert(picked(all, at@) =~= recent(all.take(0)));
    while i < history.len()
        invariant
            i <= history@.len(),
            all == check_views(history@),
            forall|j: int| 0 <= j < at@.len() ==> #[trigger] at@[j] < i,
            picked(all, at@) == recent(all.take(i as int)),
        decreases history@.len() - i,
    {
        let ghost before = picked(all, at@);
        let epoch = history[i].epoch_secs;
        let mut r: usize = 0;
        while r < at.len() && history[at[r]].epoch_secs >= epoch
            invariant
                i < history@.len(),
                all == check_views(history@),
                epoch == all[i as int].epoch_secs,
                r <= at@.len(),
                forall|j: int| 0 <= j < at@.len() ==> #[trigger] at@[j] < i,
                before == picked(all, at@),
                forall|j: int| 0 <= j < r ==> (#[trigger] before[j]).epoch_secs >= epoch,
            decreases at@.len() - r,
        {
            assert(before[r as int] == all[at@[r as int] as int]);
            r = r + 1;
        }
        proof {
            if r < at@.len() {
                assert(before[r as int] == all[at@[r as int] as int]);
            }
            rank_from(before, all[i as int], r as int);
            recent_step(all, i as int);
        }
        at.insert(r, i);
        assert(picked(all, at@) =~= before.insert(r as int, all[i as int]));
        if at.len() > RECENT_CHECKS {
            let ghost grown = picked(all, at@);
            at.truncate(RECENT_CHECKS);
            assert(picked(all, at@) =~= grown.take(RECENT_CHECKS as int));
        }
        i = i + 1;
    }
    assert(all.take(all.len() as int) == all);
    let mut r: Vec<CheckResult> = Vec::new();
    let mut k: usize = 0;
    while k < at.len()
        invariant
            k <= at@.len(),
            all == check_views(history@),
            forall|j: int| 0 <= j < at@.len() ==> #[trigger] at@[j] < history@.len(),
            check_views(r@) == picked(all, at@).take(k as int),
        decreases at@.len() - k,
    {
        let ghost done = check_views(r@);
        r.push(history[at[k]].clone());
        assert(check_views(r@) =~= done.push(all[at@[k as int] as int]));
        k = k + 1;
    }
    assert(picked(all, at@).take(k as int) == picked(all, at@));
    r
}

/// The recent checks are in order, the newest first.
pub proof fn newest_first_descends(history: Seq<CheckView>)
    ensures
        forall|i: int, j: int|
            0 <= i < j < newest_first(history).len() ==> newest_first(history)[i].epoch_secs
                >= newest_first(history)[j].epoch_secs,
    decreases history.len(),
{
    if history.len() > 0 {
        let sorted = newest_first(history.drop_last());
        let c = history.last();
        newest_first_descends(history.drop_last());
        rank_bounds(sorted, c);
        let r = rank(sorted, c);
        let all = newest_first(history);
        assert forall|i: int, j: int| 0 <= i < j < all.len() implies all[i].epoch_secs
            >= all[j].epoch_secs by {
            if i < r && j > r {
                assert(sorted[i].epoch_secs >= sorted[j - 1].epoch_secs);
            } else if i < r && j < r {
                assert(sorted[i].epoch_secs >= sorted[j].epoch_secs);
            } else if i > r {
                assert(sorted[i - 1].epoch_secs >= sorted[j - 1].epoch_secs);
            } else if i == r {
                assert(all[j] == sorted[j - 1]);
                if j - 1 > r {
                    assert(sorted[r].epoch_secs >= sorted[j - 1].epoch_secs);
                }
            }
        }
    }
}

/// Sorting the checks neither loses nor adds one.
pub proof fn newest_first_permutes(history: Seq<CheckView>)
    ensures
        newest_first(history).to_multiset() == history.to_multiset(),
        newest_first(history).len() == history.len(),
    decreases history.len(),
{
    newest_first_len(history);
    if history.len() > 0 {
        let sorted = newest_first(history.drop_last());
        let c = history.last();
        newest_first_permutes(history.drop_last());
        rank_bounds(sorted, c);
        vstd::seq_lib::to_multiset_insert(sorted, rank(sorted, c), c);
        history.drop_last().to_multiset_ensures();
        assert(history.drop_last().push(c) == history);
    }
}

/// Checks of the same second stay in the order in which they were made.
pub proof fn newest_first_is_stable(history: Seq<CheckView>, epoch_secs: u64)
    ensures
        newest_first(history).filter(|c: CheckView| c.epoch_secs == epoch_secs) == history.filter(
            |c: CheckView| c.epoch_secs == epoch_secs,
        ),
    decreases history.len(),
{
    let same = |c: CheckView| c.epoch_secs == epoch_secs;
    if history.len() > 0 {
        let sorted = newest_first(history.drop_last());
        let c = history.last();
        newest_first_is_stable(history.drop_last(), epoch_secs);
        newest_first_descends(history.drop_last());
        rank_bounds(sorted, c);
        let r = rank(sorted, c);
        let all = newest_first(history);
        assert(all == sorted.take(r) + seq![c] + sorted.skip(r));
        assert(sorted == sorted.take(r) + sorted.skip(r));
        Seq::filter_distributes_over_add(sorted.take(r), sorted.skip(r), same);
        Seq::filter_distributes_over_add(sorted.take(r) + seq![c], sorted.skip(r), same);
        Seq::filter_distributes_over_add(sorted.take(r), seq![c], same);
        Seq::filter_distributes_over_add(history.drop_last(), seq![c], same);
        assert(history == history.drop_last() + seq![c]);
        if same(c) {
            assert forall|i: int| 0 <= i < sorted.skip(r).len() implies !same(
                #[trigger] sorted.skip(r)[i],
            ) by {
                assert(sorted.skip(r)[i] == sorted[r + i]);
                if i > 0 {
                    assert(sorted[r].epoch_secs >= sorted[r + i].epoch_secs);
                }
            }
            filter_none(sorted.skip(r), same);
        } else {
            filter_none(seq![c], same);
        }
    }
}

proof fn filter_none<T>(s: Seq<T>, pred: spec_fn(T) -> bool)
    requires
        forall|i: int| 0 <= i < s.len() ==> !pred(#[trigger] s[i]),
    ensures
        s.filter(pred) == Seq::<T>::empty(),
    decreases s.len(),
{
    reveal(Seq::filter);
    if s.len() > 0 {
        assert(s[s.len() - 1] == s.last());
        assert forall|i: int| 0 <= i < s.drop_last().len() implies !pred(
            #[trigger] s.drop_last()[i],
        ) by {
            assert(s.drop_last()[i] == s[i]);
        }
        filter_none(s.drop_last(), pred);
    }
}

/// In contracts checks and histories have the fields that they have in code, one by one.
pub proof fn checks_stand_for_their_fields(
    c: CheckResult,
    checks: Seq<CheckResult>,
    h: DeviceHistory,
    histories: Seq<DeviceHistory>,
)
    ensures
        c@.epoch_secs == c.epoch_secs,
        c@.timestamp == c.timestamp@,
        c@.is_up == c.is_up,
        c@.status_code == c.status_code,
        c@.response_time_ms == c.response_time_ms,
        c@.error is Some <==> c.error is Some,
        c.error matches Some(error) ==> c@.error == Some(error@),
        check_views(checks).len() == checks.len(),
        forall|i: int| 0 <= i < checks.len() ==> #[trigger] check_views(checks)[i] == checks[i]@,
        h@.device_id == h.device_id@,
        h@.history == check_views(h.history@),
        history_views(histories).len() == histories.len(),
        forall|i: int|
            0 <= i < histories.len() ==> #[trigger] history_views(histories)[i] == histories[i]@,
{
}

/// The window is the 86400 seconds before now, cut off at the start of 1970.
pub proof fn the_window_is_24_hours(now_secs: u64)
    ensures
        0 <= window_start(now_secs) <= now_secs,
        now_secs >= 24 * 60 * 60 ==> now_secs - window_start(now_secs) == 24 * 60 * 60,
        now_secs < 24 * 60 * 60 ==> window_start(now_secs) == 0,
{
}

/// A history is pruned check by check: its parts can be pruned on their own, and a single check
/// stays exactly if it is at most 86400 seconds older than now.
pub proof fn pruning_goes_check_by_check(
    a: Seq<CheckView>,
    b: Seq<CheckView>,
    c: CheckView,
    now_secs: u64,
)
    ensures
        pruned(a + b, now_secs) == pruned(a, now_secs) + pruned(b, now_secs),
        pruned(seq![c], now_secs) == if c.epoch_secs + 86400 >= now_secs {
            seq![c]
        } else {
            Seq::empty()
        },
        pruned(Seq::empty(), now_secs) == Seq::<CheckView>::empty(),
{
    Seq::filter_distributes_over_add(a, b, kept(now_secs));
    reveal(Seq::filter);
    assert(seq![c].drop_last() =~= Seq::<CheckView>::empty());
    assert(Seq::<CheckView>::empty().filter(kept(now_secs)) =~= Seq::<CheckView>::empty());
    assert(Seq::<CheckView>::empty().push(c) =~= seq![c]);
}

proof fn pruning_shortens(history: Seq<CheckView>, now_secs: u64)
    ensures
        pruned(history, now_secs).len() <= history.len(),
        pruned(history, now_secs).len() == history.len() <==> forall|i: int|
            0 <= i < history.len() ==> (#[trigger] history[i]).epoch_secs + 86400 >= now_secs,
    decreases history.len(),
{
    reveal(Seq::filter);
    if history.len() > 0 {
        let rest = history.drop_last();
        pruning_shortens(rest, now_secs);
        assert(forall|i: int| 0 <= i < rest.len() ==> rest[i] == history[i]);
        if forall|i: int|
            0 <= i < rest.len() ==> (#[trigger] rest[i]).epoch_secs + 86400 >= now_secs {
            assert forall|i: int| 0 <= i < history.len() - 1 implies (
            #[trigger] history[i]).epoch_secs + 86400 >= now_secs by {
                assert(rest[i].epoch_secs + 86400 >= now_secs);
            }
            assert(history[history.len() - 1] == history.last());
        } else {
            let i = choose|i: int|
                0 <= i < rest.len() && (#[trigger] rest[i]).epoch_secs + 86400 < now_secs;
            assert(history[i].epoch_secs + 86400 < now_secs);
        }
        assert(history.last() == history[history.len() - 1]);
    }
}

/// Histories are pruned one by one: one that holds a check of more than 86400 seconds ago is
/// written back pruned, under its own device, and any other is left alone.
pub proof fn histories_are_rewritten_one_by_one(
    a: Seq<DeviceHistoryView>,
    b: Seq<DeviceHistoryView>,
    h: DeviceHistoryView,
    now_secs: u64,
)
    ensures
        rewritten(a + b, now_secs) == rewritten(a, now_secs) + rewritten(b, now_secs),
        (exists|i: int|
            0 <= i < h.history.len() && (#[trigger] h.history[i]).epoch_secs + 86400 < now_secs)
            ==> {
            let r = rewritten(seq![h], now_secs);
            &&& r.len() == 1
            &&& r[0].device_id == h.device_id
            &&& r[0].history == pruned(h.history, now_secs)
        },
        (forall|i: int|
            0 <= i < h.history.len() ==> (#[trigger] h.history[i]).epoch_secs + 86400 >= now_secs)
            ==> rewritten(seq![h], now_secs).len() == 0,
{
    Seq::filter_distributes_over_add(a, b, outdated(now_secs));
    assert(rewritten(a + b, now_secs) =~= rewritten(a, now_secs) + rewritten(b, now_secs));
    let none = Seq::<DeviceHistoryView>::empty();
    rewritten_step(none, h, now_secs);
    nothing_rewritten(none, now_secs);
    assert(none.push(h) =~= seq![h]);
    pruning_shortens(h.history, now_secs);
}

/// A check of the time `epoch_secs` belongs to segment `k` of the bar that ends at `now_secs`:
/// the segments are five minutes long, and the last one also takes what comes after them.
pub open spec fn lies_in_segment(epoch_secs: u64, now_secs: u64, k: int) -> bool {
    let start = if now_secs >= 86400 {
        now_secs - 86400
    } else {
        0
    };
    &&& start + 300 * k <= epoch_secs
    &&& k < 287 ==> epoch_secs < start + 300 * (k + 1)
}

/// The bar has 288 segments. One shows data exactly if a check lies in it, and a failure exactly
/// if one that failed does.
pub proof fn segments_show_their_checks(history: Seq<CheckView>, now_secs: u64, k: int)
    requires
        0 <= k < 288,
    ensures
        bar(history, now_secs).len() == 288,
        bar(history, now_secs)[k] is Some <==> exists|i: int|
            0 <= i < history.len() && lies_in_segment(
                (#[trigger] history[i]).epoch_secs,
                now_secs,
                k,
            ),
        bar(history, now_secs)[k] == Some(false) <==> exists|i: int|
            0 <= i < history.len() && lies_in_segment(
                (#[trigger] history[i]).epoch_secs,
                now_secs,
                k,
            ) && !history[i].is_up,
{
    assert forall|i: int| 0 <= i < history.len() implies in_bucket(
        #[trigger] history[i],
        now_secs,
        k,
    ) == lies_in_segment(history[i].epoch_secs, now_secs, k) by {
        let offset = history[i].epoch_secs - window_start(now_secs);
        if offset >= 0 {
            assert(offset / 300 * 300 <= offset < offset / 300 * 300 + 300);
        }
    }
    assert(bar(history, now_secs)[k] == bucket(history, now_secs, k));
    if exists|i: int|
        0 <= i < history.len() && lies_in_segment(
            (#[trigger] history[i]).epoch_secs,
            now_secs,
            k,
        ) {
        let i = choose|i: int|
            0 <= i < history.len() && lies_in_segment(
                (#[trigger] history[i]).epoch_secs,
                now_secs,
                k,
            );
        assert(in_bucket(history[i], now_secs, k));
    }
    if exists|i: int|
        0 <= i < history.len() && lies_in_segment(
            (#[trigger] history[i]).epoch_secs,
            now_secs,
            k,
        ) && !history[i].is_up {
        let i = choose|i: int|
            0 <= i < history.len() && lies_in_segment(
                (#[trigger] history[i]).epoch_secs,
                now_secs,
                k,
            ) && !history[i].is_up;
        assert(in_bucket(history[i], now_secs, k));
    }
}

/// The figures of a history are those of its parts together, and a single check counts as up if it
/// was up and as timed if a response time was measured, whether or not it was up.
pub proof fn figures_add_up(a: Seq<CheckView>, b: Seq<CheckView>, c: CheckView)
    ensures
        count_up(a + b) == count_up(a) + count_up(b),
        count_timed(a + b) == count_timed(a) + count_timed(b),
        total_response_ms(a + b) == total_response_ms(a) + total_response_ms(b),
        count_up(seq![c]) == (if c.is_up {
            1nat
        } else {
            0
        }),
        count_timed(seq![c]) == (if c.response_time_ms is Some {
            1nat
        } else {
            0
        }),
        total_response_ms(seq![c]) == (match c.response_time_ms {
            Some(ms) => ms as nat,
            None => 0,
        }),
    decreases b.len(),
{
    let one = seq![c];
    assert(one.drop_last() =~= Seq::<CheckView>::empty());
    assert(count_up(one.drop_last()) == 0);
    assert(count_timed(one.drop_last()) == 0);
    assert(total_response_ms(one.drop_last()) == 0);
    if b.len() == 0 {
        assert(a + b =~= a);
    } else {
        assert((a + b).drop_last() =~= a + b.drop_last());
        figures_add_up(a, b.drop_last(), c);
    }
}

proof fn timed_checks_counted(history: Seq<CheckView>)
    ensures
        count_timed(history) > 0 <==> exists|i: int|
            0 <= i < history.len() && (#[trigger] history[i]).response_time_ms is Some,
    decreases history.len(),
{
    if history.len() > 0 {
        let rest = history.drop_last();
        timed_checks_counted(rest);
        let n = history.len() - 1;
        assert(history.last() == history[n]);
        if exists|i: int| 0 <= i < rest.len() && (#[trigger] rest[i]).response_time_ms is Some {
            let i = choose|i: int|
                0 <= i < rest.len() && (#[trigger] rest[i]).response_time_ms is Some;
            assert(history[i].response_time_ms is Some);
        }
        if exists|i: int|
            0 <= i < history.len() && (#[trigger] history[i]).response_time_ms is Some {
            let i = choose|i: int|
                0 <= i < history.len() && (#[trigger] history[i]).response_time_ms is Some;
            if i < n {
                assert(rest[i].response_time_ms is Some);
            }
        }
    }
}

proof fn total_between(history: Seq<CheckView>, low: u64, high: u64)
    requires
        forall|i: int|
            0 <= i < history.len() ==> ((#[trigger] history[i]).response_time_ms matches Some(ms)
                ==> low <= ms <= high),
    ensures
        low * count_timed(history) <= total_response_ms(history) <= high * count_timed(history),
    decreases history.len(),
{
    if history.len() > 0 {
        let rest = history.drop_last();
        assert forall|i: int| 0 <= i < rest.len() implies ((
        #[trigger] rest[i]).response_time_ms matches Some(ms) ==> low <= ms <= high) by {
            assert(rest[i] == history[i]);
        }
        total_between(rest, low, high);
        assert(history.last() == history[history.len() - 1]);
        let t = count_timed(rest);
        assert(low * (t + 1) == low * t + low) by (nonlinear_arith);
        assert(high * (t + 1) == high * t + high) by (nonlinear_arith);
    } else {
        assert(low * 0 == 0 && high * 0 == 0);
    }
}

/// There is an average response time exactly if some check has a measured time. As many times the
/// average as there are measured times make up their sum but for less than one each, and the
/// average lies between any bounds of the measured times, whether or not the checks were up.
pub proof fn the_average_lies_between_the_times(history: Seq<CheckView>, low: u64, high: u64)
    ensures
        avg_response_ms(history) is Some <==> exists|i: int|
            0 <= i < history.len() && (#[trigger] history[i]).response_time_ms is Some,
        avg_response_ms(history) matches Some(avg) ==> {
            &&& avg * count_timed(history) <= total_response_ms(history)
            &&& total_response_ms(history) < avg * count_timed(history) + count_timed(history)
        },
        (forall|i: int|
            0 <= i < history.len() ==> ((#[trigger] history[i]).response_time_ms matches Some(ms)
                ==> low <= ms <= high)) ==> (avg_response_ms(history) matches Some(avg) ==> low
            <= avg <= high),
{
    timed_checks_counted(history);
    let t = count_timed(history);
    let sum = total_response_ms(history);
    if t > 0 {
        assert forall|i: int| 0 <= i < history.len() implies ((
        #[trigger] history[i]).response_time_ms matches Some(ms) ==> 0 <= ms <= u64::MAX) by {}
        total_between(history, 0, u64::MAX);
        let q = sum / t;
        assert(q * t <= sum < q * t + t) by (nonlinear_arith)
            requires
                t > 0,
                q == sum / t,
        ;
        assert(q <= u64::MAX) by (nonlinear_arith)
            requires
                t > 0,
                q * t <= sum,
                sum <= u64::MAX * t,
        ;
        if forall|i: int|
            0 <= i < history.len() ==> ((#[trigger] history[i]).response_time_ms matches Some(ms)
                ==> low <= ms <= high) {
            total_between(history, low, high);
            assert(low <= q <= high) by (nonlinear_arith)
                requires
                    t > 0,
                    q * t <= sum < q * t + t,
                    low * t <= sum <= high * t,
            ;
        }
    }
}

/// The recent checks are the first of all checks in order: all of them, or fifty where there are
/// more. None of the others is newer than one of them.
pub proof fn recent_checks_are_the_newest(history: Seq<CheckView>)
    ensures
        recent(history).len() == if history.len() < 50 {
            history.len() as int
        } else {
            50
        },
        recent(history) == newest_first(history).take(recent(history).len() as int),
        forall|i: int, j: int|
            0 <= i < recent(history).len() <= j < history.len() ==> (#[trigger] recent(
                history,
            )[i]).epoch_secs >= (#[trigger] newest_first(history)[j]).epoch_secs,
        forall|i: int, j: int|
            0 <= i < j < recent(history).len() ==> (#[trigger] recent(history)[i]).epoch_secs >= (
            #[trigger] recent(history)[j]).epoch_secs,
        history.len() <= 50 ==> recent(history).to_multiset() == history.to_multiset(),
{
    newest_first_descends(history);
    newest_first_permutes(history);
    let sorted = newest_first(history);
    assert(sorted.take(sorted.len() as int) =~= sorted);
    let r = recent(history);
    assert(forall|i: int| 0 <= i < r.len() ==> r[i] == sorted[i]);
}

/// The sum of the response times is addable exactly if it does not go beyond 64 bits.
pub proof fn sums_of_64_bits_are_addable(history: Seq<CheckView>)
    ensures
        response_times_addable(history) <==> total_response_ms(history) <= u64::MAX,
{
}

} // verus!
