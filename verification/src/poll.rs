//! Polling a device: what is asked of it, step by step, and what its answer means.

use vstd::prelude::*;
use vstd::string::*;

use crate::device::{Device, DeviceView};
use crate::history::{CheckResult, CheckView, DeviceHistory, DeviceHistoryView};
use crate::metrics::{DeviceMetrics, MetricsView};
use crate::store::{Stored, Write, WriteView};
use crate::url::Scheme;
use crate::{device, history, metrics, store, text, url};

verus! {

/// The GET request that checks a device.
#[derive(Debug)]
pub struct OutgoingCheck {
    pub scheme: Scheme,
    pub authority: String,
    pub path: String,
}

/// What became of a check.
#[derive(Debug)]
pub enum Outcome {
    /// The URL of the device cannot be polled.
    InvalidUrl,
    /// The request could not be sent; the text describes the error.
    RequestFailed(String),
    /// The exchange failed; the text describes the error.
    HttpError(String),
    /// The pending response could not be read.
    FutureError,
    /// There was still no response after waiting for it.
    Timeout,
    /// The device answered.
    Answered { status: u16, elapsed_millis: u128 },
}

/// What an [`Outcome`] is, in terms of its text.
pub enum OutcomeView {
    InvalidUrl,
    RequestFailed(Seq<char>),
    HttpError(Seq<char>),
    FutureError,
    Timeout,
    Answered { status: u16, elapsed_millis: u128 },
}

impl View for Outcome {
    type V = OutcomeView;

    open spec fn view(&self) -> OutcomeView {
        match *self {
            Outcome::InvalidUrl => OutcomeView::InvalidUrl,
            Outcome::RequestFailed(error) => OutcomeView::RequestFailed(error@),
            Outcome::HttpError(error) => OutcomeView::HttpError(error@),
            Outcome::FutureError => OutcomeView::FutureError,
            Outcome::Timeout => OutcomeView::Timeout,
            Outcome::Answered { status, elapsed_millis } => OutcomeView::Answered {
                status,
                elapsed_millis,
            },
        }
    }
}

/// What a look at the pending response shows.
#[derive(Debug)]
pub enum FutureReply {
    /// The response is there.
    Ready { status: u16, elapsed_millis: u128 },
    /// The exchange failed; the text describes the error.
    HttpError(String),
    /// The pending response cannot be read.
    Failed,
    /// There is nothing yet.
    Pending,
}

/// What has happened on the network.
#[derive(Debug)]
pub enum PollEvent {
    /// The request was sent.
    Sent,
    /// The request could not be sent; the text describes the error.
    SendFailed(String),
    /// The pending response was looked at.
    Replied(FutureReply),
}

/// What is to be done next on the network.
#[derive(Debug)]
pub enum PollState {
    /// Send this request.
    Send(OutgoingCheck),
    /// Look at the pending response.
    Look,
    /// Wait until the pending response is there, then look at it.
    Wait,
    /// Nothing: the outcome is known.
    Settled(Outcome),
}

/// Begins to poll a device.
pub fn begin_poll(device: &Device) -> (r: PollState)
    ensures
        match url::url_parts(device@.url) {
            Some((scheme, authority, path)) => r matches PollState::Send(check) && check.scheme
                == scheme && check.authority@ == authority && check.path@ == path,
            None => r matches PollState::Settled(outcome) && outcome@ == OutcomeView::InvalidUrl,
        },
{
    match url::parse_url(device.url.as_str()) {
        Some((scheme, authority, path)) => PollState::Send(
            OutgoingCheck { scheme, authority, path },
        ),
        None => PollState::Settled(Outcome::InvalidUrl),
    }
}

/// What is to be done after `event`. An event that does not belong to `state` changes nothing.
pub open spec fn next_state(state: PollState, event: PollEvent) -> PollState {
    match (state, event) {
        (PollState::Send(_), PollEvent::Sent) => PollState::Look,
        (PollState::Send(_), PollEvent::SendFailed(error)) => PollState::Settled(
            Outcome::RequestFailed(error),
        ),
        (PollState::Look, PollEvent::Replied(reply)) => match reply {
            FutureReply::Ready { status, elapsed_millis } => PollState::Settled(
                Outcome::Answered { status, elapsed_millis },
            ),
            FutureReply::HttpError(error) => PollState::Settled(Outcome::HttpError(error)),
            FutureReply::Failed => PollState::Settled(Outcome::FutureError),
            FutureReply::Pending => PollState::Wait,
        },
        (PollState::Wait, PollEvent::Replied(reply)) => match reply {
            FutureReply::Ready { status, elapsed_millis } => PollState::Settled(
                Outcome::Answered { status, elapsed_millis },
            ),
            _ => PollState::Settled(Outcome::Timeout),
        },
        _ => state,
    }
}

/// Goes on with a poll after `event`.
pub fn poll_step(state: PollState, event: PollEvent) -> (r: PollState)
    ensures
        r == next_state(state, event),
{
    match (state, event) {
        (PollState::Send(_), PollEvent::Sent) => PollState::Look,
        (PollState::Send(_), PollEvent::SendFailed(error)) => PollState::Settled(
            Outcome::RequestFailed(error),
        ),
        (PollState::Look, PollEvent::Replied(reply)) => match reply {
            FutureReply::Ready { status, elapsed_millis } => PollState::Settled(
                Outcome::Answered { status, elapsed_millis },
            ),
            FutureReply::HttpError(error) => PollState::Settled(Outcome::HttpError(error)),
            FutureReply::Failed => PollState::Settled(Outcome::FutureError),
            FutureReply::Pending => PollState::Wait,
        },
        (PollState::Wait, PollEvent::Replied(reply)) => match reply {
            FutureReply::Ready { status, elapsed_millis } => PollState::Settled(
                Outcome::Answered { status, elapsed_millis },
            ),
            _ => PollState::Settled(Outcome::Timeout),
        },
        (state, _) => state,
    }
}

/// `event` tells how what `state` asks for went.
pub open spec fn answers(state: PollState, event: PollEvent) -> bool {
    match state {
        PollState::Send(_) => event is Sent || event is SendFailed,
        PollState::Look => event is Replied,
        PollState::Wait => event is Replied,
        PollState::Settled(_) => false,
    }
}

/// The number of events that a poll can still need.
pub open spec fn steps_left(state: PollState) -> nat {
    match state {
        PollState::Send(_) => 3,
        PollState::Look => 2,
        PollState::Wait => 1,
        PollState::Settled(_) => 0,
    }
}

/// A poll is settled after at most three events, and once settled it stays so.
pub proof fn polls_settle(state: PollState, event: PollEvent)
    ensures
        steps_left(state) <= 3,
        answers(state, event) ==> steps_left(next_state(state, event)) < steps_left(state),
        steps_left(state) == 0 <==> state is Settled,
        state is Settled ==> next_state(state, event) == state,
{
}

/// A device counts as answering only if a look at the response showed its answer, and what it
/// answered is what that look showed.
pub proof fn answers_come_from_the_device(state: PollState, event: PollEvent)
    requires
        state !is Settled,
    ensures
        next_state(state, event) matches PollState::Settled(
            Outcome::Answered { status, elapsed_millis },
        ) ==> event == PollEvent::Replied(FutureReply::Ready { status, elapsed_millis }),
{
}

/// Whenever a look at the pending response shows an answer, at once or after waiting, the poll is
/// settled as answered with that status and that time, however long it took.
pub proof fn shown_answers_settle_polls(state: PollState, status: u16, elapsed_millis: u128)
    requires
        state is Look || state is Wait,
    ensures
        next_state(
            state,
            PollEvent::Replied(FutureReply::Ready { status, elapsed_millis }),
        ) matches PollState::Settled(outcome) && outcome == (Outcome::Answered {
            status,
            elapsed_millis,
        }),
{
}

/// A request that is sent is followed by a look at the response, and one that cannot be sent
/// settles the poll with its error.
pub proof fn sending_comes_first(check: OutgoingCheck, error: String)
    ensures
        next_state(PollState::Send(check), PollEvent::Sent) is Look,
        next_state(PollState::Send(check), PollEvent::SendFailed(error)) matches PollState::Settled(
            Outcome::RequestFailed(e),
        ) && e == error,
{
}

/// A first look tells a failed exchange, with its error, from an unreadable response, and one that
/// shows nothing is followed by waiting. What is not there after waiting has timed out.
pub proof fn looks_tell_failures_apart(error: String, reply: FutureReply)
    ensures
        next_state(
            PollState::Look,
            PollEvent::Replied(FutureReply::HttpError(error)),
        ) matches PollState::Settled(Outcome::HttpError(e)) && e == error,
        next_state(
            PollState::Look,
            PollEvent::Replied(FutureReply::Failed),
        ) matches PollState::Settled(outcome) && outcome is FutureError,
        next_state(PollState::Look, PollEvent::Replied(FutureReply::Pending)) is Wait,
        reply !is Ready ==> (next_state(
            PollState::Wait,
            PollEvent::Replied(reply),
        ) matches PollState::Settled(outcome) && outcome is Timeout),
{
}

/// What does not belong to a state leaves the poll where it is.
pub proof fn events_out_of_place_change_nothing(state: PollState, event: PollEvent)
    ensures
        state is Send && event is Replied ==> next_state(state, event) == state,
        (state is Look || state is Wait) && event !is Replied ==> next_state(state, event) == state,
        state is Settled ==> next_state(state, event) == state,
{
}

/// The error text for a check that was not answered.
pub open spec fn failure_text(outcome: OutcomeView, url: Seq<char>) -> Seq<char> {
    match outcome {
        OutcomeView::InvalidUrl => "invalid URL: "@ + url,
        OutcomeView::RequestFailed(error) => "request failed: "@ + error,
        OutcomeView::HttpError(error) => "HTTP error: "@ + error,
        OutcomeView::FutureError => "response future error"@,
        OutcomeView::Timeout => "timeout waiting for response"@,
        OutcomeView::Answered { .. } => Seq::empty(),
    }
}

/// The error recorded in the history for a status other than the expected one.
pub open spec fn status_text(status: u16, expected: u16) -> Seq<char> {
    "expected "@ + text::decimal(expected as nat) + ", got "@ + text::decimal(status as nat)
}

/// The metrics of `device` after a check with this outcome.
pub open spec fn metrics_after(
    device: DeviceView,
    m: MetricsView,
    outcome: OutcomeView,
    timestamp: Seq<char>,
) -> MetricsView {
    match outcome {
        OutcomeView::Answered { status, elapsed_millis } => if status == device.expected_status {
            metrics::after_success(m, status, elapsed_millis as u64, timestamp)
        } else {
            metrics::after_down(
                m,
                Some(status),
                Some(elapsed_millis as u64),
                metrics::unexpected_status_error(status, device.expected_status),
                timestamp,
            )
        },
        _ => metrics::after_down(m, None, None, failure_text(outcome, device.url), timestamp),
    }
}

/// The history entry for a check of `device` with this outcome.
pub open spec fn check_of(
    device: DeviceView,
    outcome: OutcomeView,
    timestamp: Seq<char>,
    epoch: u64,
) -> CheckView {
    match outcome {
        OutcomeView::Answered { status, elapsed_millis } => CheckView {
            epoch_secs: epoch,
            timestamp,
            is_up: status == device.expected_status,
            status_code: Some(status),
            response_time_ms: Some(elapsed_millis as u64),
            error: if status == device.expected_status {
                None
            } else {
                Some(status_text(status, device.expected_status))
            },
        },
        _ => CheckView {
            epoch_secs: epoch,
            timestamp,
            is_up: false,
            status_code: None,
            response_time_ms: None,
            error: Some(failure_text(outcome, device.url)),
        },
    }
}

/// The counters of `m` have room for a check of `device` with this outcome.
pub open spec fn can_count(device: DeviceView, m: MetricsView, outcome: OutcomeView) -> bool {
    if outcome matches OutcomeView::Answered { status, .. } && status == device.expected_status {
        metrics::can_count_up(m)
    } else {
        metrics::can_count_down(m)
    }
}

/// Whether the counters of `metrics` have room for a check of `device` with this outcome.
pub fn counters_have_room(device: &Device, metrics: &DeviceMetrics, outcome: &Outcome) -> (r: bool)
    ensures
        r == can_count(device@, metrics@, outcome@),
{
    let is_up = match outcome {
        Outcome::Answered { status, .. } => *status == device.expected_status,
        _ => false,
    };
    if is_up {
        metrics.total_checks < u64::MAX && metrics.total_up < u64::MAX
    } else {
        metrics.total_checks < u64::MAX && metrics.total_down < u64::MAX
            && metrics.consecutive_failures < u32::MAX
    }
}

/// The metrics are saved before the history, except for checks that were answered and for those
/// whose request could not be sent.
pub open spec fn metrics_saved_first(outcome: OutcomeView) -> bool {
    match outcome {
        OutcomeView::Answered { .. } => false,
        OutcomeView::RequestFailed(_) => false,
        _ => true,
    }
}

/// The writes that record a check of `device` with this outcome, in their order.
pub open spec fn poll_writes(
    device: DeviceView,
    m: MetricsView,
    checks: Seq<CheckView>,
    outcome: OutcomeView,
    timestamp: Seq<char>,
    epoch: u64,
    now_secs: u64,
) -> Seq<WriteView> {
    let save_metrics = WriteView::SaveMetrics(metrics_after(device, m, outcome, timestamp));
    let save_history = WriteView::SaveHistory(
        DeviceHistoryView {
            device_id: device.id,
            history: history::pruned(checks, now_secs).push(
                check_of(device, outcome, timestamp, epoch),
            ),
        },
    );
    if metrics_saved_first(outcome) {
        seq![save_metrics, save_history]
    } else {
        seq![save_history, save_metrics]
    }
}

/// The error text for a check that was not answered.
fn failure_message(outcome: &Outcome, url: &str) -> (r: String)
    ensures
        r@ == failure_text(outcome@, url@),
{
    match outcome {
        Outcome::InvalidUrl => "invalid URL: ".to_owned().concat(url),
        Outcome::RequestFailed(error) => "request failed: ".to_owned().concat(error.as_str()),
        Outcome::HttpError(error) => "HTTP error: ".to_owned().concat(error.as_str()),
        Outcome::FutureError => "response future error".to_owned(),
        Outcome::Timeout => "timeout waiting for response".to_owned(),
        Outcome::Answered { .. } => String::new(),
    }
}

/// What a poll leaves behind: the new metrics and the writes that record it.
pub struct PollRecord {
    pub metrics: DeviceMetrics,
    pub writes: Vec<Write>,
}

/// Records a check of `device`: `metrics` and `history` are what was known of it, `timestamp` and
/// `epoch` the time of the check, and `now_secs` the time at which it is recorded.
pub fn record_poll(
    device: &Device,
    metrics: DeviceMetrics,
    history: Vec<CheckResult>,
    outcome: &Outcome,
    timestamp: &str,
    epoch: u64,
    now_secs: u64,
) -> (r: PollRecord)
    requires
        can_count(device@, metrics@, outcome@),
    ensures
        r.metrics@ == metrics_after(device@, metrics@, outcome@, timestamp@),
        store::write_views(r.writes@) == poll_writes(
            device@,
            metrics@,
            history::check_views(history@),
            outcome@,
            timestamp@,
            epoch,
            now_secs,
        ),
{
    let ghost known = metrics@;
    let mut metrics = metrics;
    let check = match outcome {
        Outcome::Answered { status, elapsed_millis } => {
            let status: u16 = *status;
            let elapsed_ms: u64 = *elapsed_millis as u64;
            let error: Option<String> = if status == device.expected_status {
                metrics.record_success(status, elapsed_ms, timestamp);
                None
            } else {
                metrics.record_unexpected_status(
                    status,
                    device.expected_status,
                    elapsed_ms,
                    timestamp,
                );
                let mut error = "expected ".to_owned();
                text::push_decimal(&mut error, device.expected_status as u64);
                error.append(", got ");
                text::push_decimal(&mut error, status as u64);
                Some(error)
            };
            CheckResult {
                epoch_secs: epoch,
                timestamp: timestamp.to_owned(),
                is_up: status == device.expected_status,
                status_code: Some(status),
                response_time_ms: Some(elapsed_ms),
                error,
            }
        },
        _ => {
            let error = failure_message(outcome, device.url.as_str());
            metrics.record_failure(error.as_str(), timestamp);
            CheckResult {
                epoch_secs: epoch,
                timestamp: timestamp.to_owned(),
                is_up: false,
                status_code: None,
                response_time_ms: None,
                error: Some(error),
            }
        },
    };
    let ghost checks = history::check_views(history@);
    assert(check@ == check_of(device@, outcome@, timestamp@, epoch));
    let save_history = Write::SaveHistory(
        DeviceHistory {
            device_id: device.id.clone(),
            history: history::append_and_prune_history(history, now_secs, check),
        },
    );
    let save_metrics = Write::SaveMetrics(metrics.clone());
    let metrics_first = match outcome {
        Outcome::Answered { .. } => false,
        Outcome::RequestFailed(_) => false,
        _ => true,
    };
    let mut writes: Vec<Write> = Vec::new();
    if metrics_first {
        writes.push(save_metrics);
        writes.push(save_history);
    } else {
        writes.push(save_history);
        writes.push(save_metrics);
    }
    assert(store::write_views(writes@) =~= poll_writes(
        device@,
        known,
        checks,
        outcome@,
        timestamp@,
        epoch,
        now_secs,
    ));
    PollRecord { metrics, writes }
}

/// A device counts as up exactly if it answered with the status expected of it, in its metrics
/// as in its history, and each check is counted once. Counters that agreed before still do, and
/// the uptime agrees with them.
pub proof fn up_means_expected_status(
    device: DeviceView,
    m: MetricsView,
    outcome: OutcomeView,
    timestamp: Seq<char>,
    epoch: u64,
)
    requires
        can_count(device, m, outcome),
    ensures
        ({
            let after = metrics_after(device, m, outcome, timestamp);
            let check = check_of(device, outcome, timestamp, epoch);
            &&& check.is_up == after.is_up
            &&& check.is_up <==> (outcome matches OutcomeView::Answered { status, .. } && status
                == device.expected_status)
            &&& check.is_up <==> check.error is None
            &&& after.total_checks == m.total_checks + 1
            &&& after.device_id == m.device_id
            &&& metrics::counters_agree(m) ==> metrics::consistent(after)
        }),
{
}

/// The store after a poll of `device` with this outcome, which starts from what the store holds
/// of the device.
pub open spec fn store_after_poll(
    kept: Map<Seq<char>, Stored>,
    device: DeviceView,
    outcome: OutcomeView,
    timestamp: Seq<char>,
    epoch: u64,
    now_secs: u64,
) -> Map<Seq<char>, Stored> {
    store::all_written(
        kept,
        poll_writes(
            device,
            store::metrics_in(kept, device.id),
            store::history_in(kept, device.id),
            outcome,
            timestamp,
            epoch,
            now_secs,
        ),
    )
}

/// After a poll the store holds the new metrics and, as the newest entry of the pruned history,
/// the check, which tells the same as the metrics do; the register and what is kept of other
/// devices stay as they were.
pub proof fn polls_are_recorded(
    kept: Map<Seq<char>, Stored>,
    device: DeviceView,
    outcome: OutcomeView,
    timestamp: Seq<char>,
    epoch: u64,
    now_secs: u64,
    other: Seq<char>,
)
    requires
        store::metrics_in(kept, device.id).device_id == device.id,
    ensures
        ({
            let m = store::metrics_in(kept, device.id);
            let checks = store::history_in(kept, device.id);
            let after = store_after_poll(kept, device, outcome, timestamp, epoch, now_secs);
            let result = metrics_after(device, m, outcome, timestamp);
            let check = check_of(device, outcome, timestamp, epoch);
            &&& store::metrics_in(after, device.id) == result
            &&& store::history_in(after, device.id) == history::pruned(checks, now_secs).push(check)
            &&& check.epoch_secs == epoch
            &&& check.timestamp == result.last_checked
            &&& check.is_up == result.is_up
            &&& check.status_code == result.last_status_code
            &&& check.response_time_ms == result.response_time_ms
            &&& check.error is None <==> check.is_up
            &&& store::devices_in(after) == store::devices_in(kept)
            &&& other != device.id ==> store::metrics_in(after, other) == store::metrics_in(
                kept,
                other,
            )
            &&& other != device.id ==> store::history_in(after, other) == store::history_in(
                kept,
                other,
            )
        }),
{
    let m = store::metrics_in(kept, device.id);
    let checks = store::history_in(kept, device.id);
    let writes = poll_writes(device, m, checks, outcome, timestamp, epoch, now_secs);
    store::two_writes(kept, writes);
    let save_metrics = metrics_after(device, m, outcome, timestamp);
    let save_history = DeviceHistoryView {
        device_id: device.id,
        history: history::pruned(checks, now_secs).push(
            check_of(device, outcome, timestamp, epoch),
        ),
    };
    let none = Map::<Seq<char>, DeviceView>::empty();
    let middle = store::written(kept, writes[0]);
    store::reads_give_back_writes(kept, none, save_metrics, save_history, other);
    store::reads_give_back_writes(kept, none, save_metrics, save_history, device.id);
    store::reads_give_back_writes(middle, none, save_metrics, save_history, other);
    store::reads_give_back_writes(middle, none, save_metrics, save_history, device.id);
}

/// How a poll went: its outcome, the time of the check, and the time at which it was recorded.
pub struct Polled {
    pub outcome: OutcomeView,
    pub timestamp: Seq<char>,
    pub epoch: u64,
    pub now_secs: u64,
}

/// The store after `devices` have been polled one after the other; `polls` tells how it went.
pub open spec fn store_after_polls(
    kept: Map<Seq<char>, Stored>,
    devices: Seq<DeviceView>,
    polls: Seq<Polled>,
) -> Map<Seq<char>, Stored>
    decreases devices.len(),
{
    if devices.len() == 0 {
        kept
    } else {
        let p = polls[devices.len() - 1];
        store_after_poll(
            store_after_polls(kept, devices.drop_last(), polls),
            devices.last(),
            p.outcome,
            p.timestamp,
            p.epoch,
            p.now_secs,
        )
    }
}

/// The metrics and the history of `device` in `after` are those in `kept` with the poll `p`
/// recorded.
pub open spec fn has_recorded(
    after: Map<Seq<char>, Stored>,
    kept: Map<Seq<char>, Stored>,
    device: DeviceView,
    p: Polled,
) -> bool {
    &&& store::metrics_in(after, device.id) == metrics_after(
        device,
        store::metrics_in(kept, device.id),
        p.outcome,
        p.timestamp,
    )
    &&& store::history_in(after, device.id) == history::pruned(
        store::history_in(kept, device.id),
        p.now_secs,
    ).push(check_of(device, p.outcome, p.timestamp, p.epoch))
}

/// What `after` holds of the device `id` is what `kept` holds of it.
pub open spec fn unchanged(
    after: Map<Seq<char>, Stored>,
    kept: Map<Seq<char>, Stored>,
    id: Seq<char>,
) -> bool {
    &&& store::metrics_in(after, id) == store::metrics_in(kept, id)
    &&& store::history_in(after, id) == store::history_in(kept, id)
}

proof fn polls_in_turn(
    kept: Map<Seq<char>, Stored>,
    devices: Seq<DeviceView>,
    polls: Seq<Polled>,
    id: Seq<char>,
)
    requires
        store::well_filed(kept),
        forall|i: int, j: int| 0 <= i < j < devices.len() ==> devices[i].id != devices[j].id,
    ensures
        ({
            let after = store_after_polls(kept, devices, polls);
            &&& store::devices_in(after) == store::devices_in(kept)
            &&& forall|i: int|
                0 <= i < devices.len() && (#[trigger] devices[i]).id == id ==> has_recorded(
                    after,
                    kept,
                    devices[i],
                    polls[i],
                )
            &&& (forall|i: int| 0 <= i < devices.len() ==> (#[trigger] devices[i]).id != id)
                ==> unchanged(after, kept, id)
        }),
    decreases devices.len(),
{
    if devices.len() > 0 {
        let rest = devices.drop_last();
        let n = devices.len() - 1;
        let device = devices[n];
        let p = polls[n];
        let before = store_after_polls(kept, rest, polls);
        let after = store_after_polls(kept, devices, polls);
        polls_in_turn(kept, rest, polls, id);
        polls_in_turn(kept, rest, polls, device.id);
        assert forall|i: int| 0 <= i < rest.len() implies (#[trigger] rest[i]).id != device.id by {
            assert(rest[i] == devices[i]);
        }
        assert(unchanged(before, kept, device.id));
        assert(store::metrics_in(kept, device.id).device_id == device.id);
        polls_are_recorded(before, device, p.outcome, p.timestamp, p.epoch, p.now_secs, id);
        assert(has_recorded(after, kept, device, p));
        assert forall|i: int|
            0 <= i < devices.len() && (#[trigger] devices[i]).id == id implies has_recorded(
            after,
            kept,
            devices[i],
            polls[i],
        ) by {
            if i < n {
                assert(rest[i] == devices[i]);
                assert(has_recorded(before, kept, rest[i], polls[i]));
            }
        }
        if forall|i: int| 0 <= i < devices.len() ==> (#[trigger] devices[i]).id != id {
            assert forall|i: int| 0 <= i < rest.len() implies (#[trigger] rest[i]).id != id by {
                assert(rest[i] == devices[i]);
            }
            assert(devices[n].id != id);
        }
    }
}

/// When all registered devices have been polled one after the other, every one of them has exactly
/// one more check: its metrics are brought up to date and count it, and its pruned history is
/// extended by it. The register, and what is kept under other ids, stay as they were.
pub proof fn polling_reaches_every_device(
    kept: Map<Seq<char>, Stored>,
    m: Map<Seq<char>, DeviceView>,
    keys: Seq<Seq<char>>,
    polls: Seq<Polled>,
    id: Seq<char>,
)
    requires
        device::is_key_order(keys, m),
        device::keyed_by_id(m),
        store::well_filed(kept),
        polls.len() == keys.len(),
    ensures
        ({
            let after = store_after_polls(kept, device::devices_in_order(m), polls);
            &&& store::devices_in(after) == store::devices_in(kept)
            &&& m.contains_key(id) <==> exists|i: int|
                0 <= i < keys.len() && #[trigger] keys[i] == id
            &&& forall|i: int|
                0 <= i < keys.len() && #[trigger] keys[i] == id ==> {
                    &&& has_recorded(after, kept, m[id], polls[i])
                    &&& store::history_in(after, id).len() == history::pruned(
                        store::history_in(kept, id),
                        polls[i].now_secs,
                    ).len() + 1
                    &&& can_count(m[id], store::metrics_in(kept, id), polls[i].outcome)
                        ==> store::metrics_in(after, id).total_checks == store::metrics_in(
                        kept,
                        id,
                    ).total_checks + 1
                }
            &&& !m.contains_key(id) ==> unchanged(after, kept, id)
        }),
{
    device::key_order_unique(keys, m);
    let devices = device::devices_in_order(m);
    assert forall|i: int| 0 <= i < keys.len() implies (#[trigger] devices[i]).id == keys[i] by {
        assert(keys.contains(keys[i]));
        assert(m.contains_key(keys[i]));
    }
    assert forall|i: int, j: int| 0 <= i < j < devices.len() implies devices[i].id
        != devices[j].id by {
        assert(text::text_before(keys[i], keys[j]));
        text::text_before_irreflexive(keys[i]);
    }
    polls_in_turn(kept, devices, polls, id);
    assert(keys.contains(id) <==> m.contains_key(id));
    let after = store_after_polls(kept, devices, polls);
    assert forall|i: int| 0 <= i < keys.len() && #[trigger] keys[i] == id implies has_recorded(
        after,
        kept,
        m[id],
        polls[i],
    ) && m[id].id == id by {
        assert(devices[i] == m[id]);
        assert(devices[i].id == id);
    }
    if !m.contains_key(id) {
        assert forall|i: int| 0 <= i < devices.len() implies (#[trigger] devices[i]).id != id by {
            assert(devices[i].id == keys[i]);
        }
    }
}

/// In contracts an outcome has the fields that it has in code.
pub proof fn outcomes_stand_for_their_fields(outcome: Outcome)
    ensures
        outcome is InvalidUrl <==> outcome@ is InvalidUrl,
        outcome is FutureError <==> outcome@ is FutureError,
        outcome is Timeout <==> outcome@ is Timeout,
        outcome is RequestFailed <==> outcome@ is RequestFailed,
        outcome is HttpError <==> outcome@ is HttpError,
        outcome matches Outcome::RequestFailed(e) ==> outcome@ == OutcomeView::RequestFailed(e@),
        outcome matches Outcome::HttpError(e) ==> outcome@ == OutcomeView::HttpError(e@),
        outcome matches Outcome::Answered { status, elapsed_millis } ==> outcome@ == (
        OutcomeView::Answered { status, elapsed_millis }),
{
}

/// What a check that was answered leaves behind: the status that came and the time it took, in
/// the metrics as in the history, no error if the status is the expected one, and else one that
/// names both statuses.
pub proof fn answers_are_recorded(
    device: DeviceView,
    m: MetricsView,
    status: u16,
    elapsed_millis: u128,
    timestamp: Seq<char>,
    epoch: u64,
)
    ensures
        ({
            let outcome = OutcomeView::Answered { status, elapsed_millis };
            let after = metrics_after(device, m, outcome, timestamp);
            let check = check_of(device, outcome, timestamp, epoch);
            &&& after.device_id == m.device_id
            &&& after.last_status_code == Some(status) && check.status_code == Some(status)
            &&& elapsed_millis <= u64::MAX ==> (after.response_time_ms matches Some(ms) && ms
                == elapsed_millis)
            &&& check.response_time_ms == after.response_time_ms
            &&& after.response_time_ms == Some(elapsed_millis as u64)
            &&& after.last_checked == timestamp && check.timestamp == timestamp
            &&& check.epoch_secs == epoch
            &&& status == device.expected_status ==> {
                &&& after.is_up && check.is_up
                &&& after.last_error is None && check.error is None
                &&& after.consecutive_failures == 0
                &&& after.total_down == m.total_down
                &&& can_count(device, m, outcome) ==> after.total_up == m.total_up + 1
            }
            &&& status != device.expected_status ==> {
                &&& !after.is_up && !check.is_up
                &&& after.last_error == Some(
                    "unexpected status: got "@ + text::decimal(status as nat) + ", expected "@
                        + text::decimal(device.expected_status as nat),
                )
                &&& check.error == Some(
                    "expected "@ + text::decimal(device.expected_status as nat) + ", got "@
                        + text::decimal(status as nat),
                )
                &&& after.total_up == m.total_up
                &&& can_count(device, m, outcome) ==> after.total_down == m.total_down + 1
                    && after.consecutive_failures == m.consecutive_failures + 1
            }
            &&& can_count(device, m, outcome) ==> after.total_checks == m.total_checks + 1
                && after.uptime_percentage == (metrics::Percentage::Share {
                part: after.total_up,
                whole: after.total_checks,
            })
        }),
{
}

/// What a check that was not answered leaves behind: no status and no time, and the same error in
/// the metrics as in the history, which tells what went wrong.
pub proof fn failures_are_recorded(
    device: DeviceView,
    m: MetricsView,
    outcome: OutcomeView,
    timestamp: Seq<char>,
    epoch: u64,
)
    requires
        outcome !is Answered,
    ensures
        ({
            let after = metrics_after(device, m, outcome, timestamp);
            let check = check_of(device, outcome, timestamp, epoch);
            &&& after.device_id == m.device_id
            &&& !after.is_up && !check.is_up
            &&& after.last_status_code is None && check.status_code is None
            &&& after.response_time_ms is None && check.response_time_ms is None
            &&& after.last_checked == timestamp && check.timestamp == timestamp
            &&& check.epoch_secs == epoch
            &&& after.total_up == m.total_up
            &&& can_count(device, m, outcome) ==> {
                &&& after.total_checks == m.total_checks + 1
                &&& after.total_down == m.total_down + 1
                &&& after.consecutive_failures == m.consecutive_failures + 1
                &&& after.uptime_percentage == (metrics::Percentage::Share {
                    part: m.total_up,
                    whole: after.total_checks,
                })
            }
            &&& after.last_error is Some && check.error == after.last_error
            &&& outcome is InvalidUrl ==> check.error == Some("invalid URL: "@ + device.url)
            &&& outcome matches OutcomeView::RequestFailed(e) ==> check.error == Some(
                "request failed: "@ + e,
            )
            &&& outcome matches OutcomeView::HttpError(e) ==> check.error == Some(
                "HTTP error: "@ + e,
            )
            &&& outcome is FutureError ==> check.error == Some("response future error"@)
            &&& outcome is Timeout ==> check.error == Some("timeout waiting for response"@)
        }),
{
}

/// A check can be counted exactly if the counters that it raises are not at their limits.
pub proof fn checks_raise_their_counters(device: DeviceView, m: MetricsView, outcome: OutcomeView)
    ensures
        ({
            let is_up = outcome matches OutcomeView::Answered { status, .. } && status
                == device.expected_status;
            can_count(device, m, outcome) <==> m.total_checks < u64::MAX && (if is_up {
                m.total_up < u64::MAX
            } else {
                m.total_down < u64::MAX && m.consecutive_failures < u32::MAX
            })
        }),
{
}

/// A poll makes two writes: one of the metrics and one of the history, to which the new check is
/// added at the end. The history comes first after an answer or where nothing could be sent.
pub proof fn polls_write_metrics_and_history(
    device: DeviceView,
    m: MetricsView,
    checks: Seq<CheckView>,
    outcome: OutcomeView,
    timestamp: Seq<char>,
    epoch: u64,
    now_secs: u64,
)
    ensures
        ({
            let writes = poll_writes(device, m, checks, outcome, timestamp, epoch, now_secs);
            let first = if outcome is Answered || outcome is RequestFailed {
                0int
            } else {
                1
            };
            &&& writes.len() == 2
            &&& writes[first] matches WriteView::SaveHistory(h) && {
                &&& h.device_id == device.id
                &&& h.history.len() > 0
                &&& h.history.last() == check_of(device, outcome, timestamp, epoch)
                &&& h.history.drop_last() == history::pruned(checks, now_secs)
            }
            &&& writes[1 - first] == WriteView::SaveMetrics(
                metrics_after(device, m, outcome, timestamp),
            )
        }),
{
    let h = history::pruned(checks, now_secs);
    let check = check_of(device, outcome, timestamp, epoch);
    assert(h.push(check).drop_last() =~= h);
}

} // verus!
