//! How requests are answered.
//!
//! A request goes through some of these steps, each of which says what is to be done before the
//! next one: [`begin`] when the request has come in, [`body_read`] and [`register_device`] for a
//! registration, [`devices_loaded`] when the register has been read, [`records_loaded`] when the
//! metrics and histories that were asked for have been read, and [`polled`] when the devices that
//! were named have been polled.

use vstd::prelude::*;
use vstd::string::*;

use crate::dashboard::{
    DashboardDetail, DashboardDetailView, DashboardDevice, DashboardDeviceView, DashboardRow,
    DashboardRowView,
};
use crate::device::{CreateDeviceRequest, Device, DeviceMap, DeviceView};
use crate::history::{CheckResult, CheckView};
use crate::metrics::{DeviceMetrics, MetricsView};
use crate::poll::OutcomeView;
use crate::router::{Route, RouteView};
use crate::store::{Stored, Write, WriteView};
use crate::{dashboard, device, history, html, json, metrics, poll, router, store, text};

verus! {

/// What a response holds.
pub enum Body {
    /// These bytes of JSON.
    Json(Vec<u8>),
    /// Devices, as JSON.
    Devices(Vec<Device>),
    /// A device, as JSON.
    Device(Device),
    /// Metrics of several devices, as JSON.
    MetricsList(Vec<DeviceMetrics>),
    /// Metrics of a device, as JSON.
    Metrics(DeviceMetrics),
    /// The history of a device, as JSON.
    History(Vec<CheckResult>),
    /// The main dashboard's figures, as JSON.
    DashboardData(Vec<DashboardDevice>),
    /// The figures of a device, as JSON.
    DetailData(DashboardDetail),
    /// The main dashboard, as HTML.
    DashboardPage(Vec<DashboardRow>),
    /// The page of a device, as HTML.
    DetailPage(DashboardDetail),
}

/// What a [`Body`] is, in terms of its texts.
pub enum BodyView {
    Json(Seq<u8>),
    Devices(Seq<DeviceView>),
    Device(DeviceView),
    MetricsList(Seq<MetricsView>),
    Metrics(MetricsView),
    History(Seq<CheckView>),
    DashboardData(Seq<DashboardDeviceView>),
    DetailData(DashboardDetailView),
    DashboardPage(Seq<DashboardRowView>),
    DetailPage(DashboardDetailView),
}

/// The metrics `list` as they appear in contracts.
pub open spec fn metrics_views(list: Seq<DeviceMetrics>) -> Seq<MetricsView> {
    list.map_values(|m: DeviceMetrics| m@)
}

/// The histories `list` as they appear in contracts.
pub open spec fn histories_views(list: Seq<Vec<CheckResult>>) -> Seq<Seq<CheckView>> {
    list.map_values(|h: Vec<CheckResult>| history::check_views(h@))
}

/// The summaries `list` as they appear in contracts.
pub open spec fn summary_views(list: Seq<DashboardDevice>) -> Seq<DashboardDeviceView> {
    list.map_values(|d: DashboardDevice| d@)
}

impl View for Body {
    type V = BodyView;

    open spec fn view(&self) -> BodyView {
        match *self {
            Body::Json(bytes) => BodyView::Json(bytes@),
            Body::Devices(devices) => BodyView::Devices(device::device_views(devices@)),
            Body::Device(device) => BodyView::Device(device@),
            Body::MetricsList(list) => BodyView::MetricsList(metrics_views(list@)),
            Body::Metrics(m) => BodyView::Metrics(m@),
            Body::History(checks) => BodyView::History(history::check_views(checks@)),
            Body::DashboardData(list) => BodyView::DashboardData(summary_views(list@)),
            Body::DetailData(detail) => BodyView::DetailData(detail@),
            Body::DashboardPage(rows) => BodyView::DashboardPage(html::row_views(rows@)),
            Body::DetailPage(detail) => BodyView::DetailPage(detail@),
        }
    }
}

impl Body {
    /// The content type under which the body is sent.
    pub fn content_type(&self) -> (r: &'static str)
        ensures
            r@ == if self@ is DashboardPage || self@ is DetailPage {
                "text/html; charset=utf-8"@
            } else {
                "application/json"@
            },
    {
        match self {
            Body::DashboardPage(_) => "text/html; charset=utf-8",
            Body::DetailPage(_) => "text/html; charset=utf-8",
            _ => "application/json",
        }
    }
}

/// The answer to a request: the writes to be made, in their order, and the response.
pub struct Answer {
    pub writes: Vec<Write>,
    pub status: u16,
    pub body: Body,
}

/// What an [`Answer`] is, in terms of its texts.
pub struct AnswerView {
    pub writes: Seq<WriteView>,
    pub status: u16,
    pub body: BodyView,
}

impl View for Answer {
    type V = AnswerView;

    open spec fn view(&self) -> AnswerView {
        AnswerView {
            writes: store::write_views(self.writes@),
            status: self.status,
            body: self.body@,
        }
    }
}

/// What is to be done next about a request.
pub enum Step {
    /// Make this answer.
    Answer(Answer),
    /// Read the body of the request and go on with [`body_read`].
    ReadBody,
    /// Read the register and go on with [`devices_loaded`].
    LoadDevices,
    /// Read the metrics and the histories of these devices and go on with [`records_loaded`].
    LoadRecords { metrics_of: Vec<String>, histories_of: Vec<String> },
    /// Prune the histories of the first devices, poll the second and go on with [`polled`].
    Poll { prune: Vec<String>, devices: Vec<Device> },
}

/// What a [`Step`] is, in terms of its texts.
pub enum StepView {
    Answer(AnswerView),
    ReadBody,
    LoadDevices,
    LoadRecords { metrics_of: Seq<Seq<char>>, histories_of: Seq<Seq<char>> },
    Poll { prune: Seq<Seq<char>>, devices: Seq<DeviceView> },
}

impl View for Step {
    type V = StepView;

    open spec fn view(&self) -> StepView {
        match *self {
            Step::Answer(answer) => StepView::Answer(answer@),
            Step::ReadBody => StepView::ReadBody,
            Step::LoadDevices => StepView::LoadDevices,
            Step::LoadRecords { metrics_of, histories_of } => StepView::LoadRecords {
                metrics_of: text::texts(metrics_of@),
                histories_of: text::texts(histories_of@),
            },
            Step::Poll { prune, devices } => StepView::Poll {
                prune: text::texts(prune@),
                devices: device::device_views(devices@),
            },
        }
    }
}

/// An answer that writes nothing.
pub open spec fn reply(status: u16, body: BodyView) -> AnswerView {
    AnswerView { writes: Seq::empty(), status, body }
}

/// The answer to a request that is refused: an error with a message, and nothing is written.
pub open spec fn refusal(status: u16, message: Seq<char>) -> AnswerView {
    reply(status, BodyView::Json(json::error_body(message)))
}

/// The answer to a request for a device that is not registered.
pub open spec fn unknown_device(id: Seq<char>) -> AnswerView {
    refusal(404, "device '"@ + id + "' not found"@)
}

fn make_reply(status: u16, body: Body) -> (r: Answer)
    ensures
        r@ == reply(status, body@),
{
    let writes: Vec<Write> = Vec::new();
    assert(store::write_views(writes@) =~= Seq::<WriteView>::empty());
    Answer { writes, status, body }
}

fn refuse(status: u16, message: &str) -> (r: Answer)
    ensures
        r@ == refusal(status, message@),
{
    make_reply(status, Body::Json(json::error_json(message)))
}

fn refuse_unknown(id: &str) -> (r: Answer)
    ensures
        r@ == unknown_device(id@),
{
    let message = "device '".to_owned().concat(id).concat("' not found");
    refuse(404, message.as_str())
}

/// A request of this kind is answered from the register.
pub open spec fn needs_devices(route: RouteView) -> bool {
    !(route is Health || route is NotFound || route is CreateDevice)
}

/// The first step for a request.
pub open spec fn first_step(route: RouteView, version: Seq<char>) -> StepView {
    match route {
        RouteView::Health => StepView::Answer(
            reply(200, BodyView::Json(json::health_body(version))),
        ),
        RouteView::NotFound(path) => StepView::Answer(refusal(404, "not found: "@ + path)),
        RouteView::CreateDevice => StepView::ReadBody,
        _ => StepView::LoadDevices,
    }
}

/// Begins to answer a request; `version` is the version of this component.
pub fn begin(route: &Route, version: &str) -> (r: Step)
    ensures
        r@ == first_step(route@, version@),
{
    match route {
        Route::Health => Step::Answer(make_reply(200, Body::Json(json::health_json(version)))),
        Route::NotFound(path) => {
            let message = "not found: ".to_owned().concat(path.as_str());
            Step::Answer(refuse(404, message.as_str()))
        },
        Route::CreateDevice => Step::ReadBody,
        _ => Step::LoadDevices,
    }
}

/// The device that a registration asks for.
pub open spec fn requested(req: CreateDeviceRequest) -> DeviceView {
    DeviceView {
        id: req.id@,
        name: req.name@,
        url: req.url@,
        expected_status: req.expected_status,
    }
}

/// A registration names everything it has to.
pub open spec fn complete(req: CreateDeviceRequest) -> bool {
    req.id@.len() > 0 && req.name@.len() > 0 && req.url@.len() > 0
}

/// Goes on with a registration when the body of the request has been read as a registration, or
/// could not be read as one; the text then describes the error. The device is to be registered
/// with [`register_device`].
pub fn body_read(parsed: Result<CreateDeviceRequest, String>) -> (r: Result<Device, Answer>)
    ensures
        match parsed {
            Err(error) => r matches Err(answer) && answer@ == refusal(
                400,
                "invalid JSON: "@ + error@,
            ),
            Ok(req) => if complete(req) {
                r matches Ok(device) && device@ == requested(req)
            } else {
                r matches Err(answer) && answer@ == refusal(
                    400,
                    "id, name, and url are required"@,
                )
            },
        },
{
    match parsed {
        Err(error) => {
            let message = "invalid JSON: ".to_owned().concat(error.as_str());
            Err(refuse(400, message.as_str()))
        },
        Ok(req) => {
            if req.id.as_str().is_empty() || req.name.as_str().is_empty()
                || req.url.as_str().is_empty() {
                Err(refuse(400, "id, name, and url are required"))
            } else {
                Ok(
                    Device {
                        id: req.id,
                        name: req.name,
                        url: req.url,
                        expected_status: req.expected_status,
                    },
                )
            }
        },
    }
}

/// The answer to a registration.
pub open spec fn registration(
    devices: Map<Seq<char>, DeviceView>,
    device: DeviceView,
) -> AnswerView {
    AnswerView {
        writes: seq![WriteView::SaveDevices(devices.insert(device.id, device))],
        status: 201,
        body: BodyView::Device(device),
    }
}

/// Registers `device` under its id, in the place of a device that has the id already.
pub fn register_device(devices: DeviceMap, device: Device) -> (r: Answer)
    ensures
        r@ == registration(devices@, device@),
{
    let mut devices = devices;
    devices.insert(device.id.clone(), device.clone());
    let mut writes: Vec<Write> = Vec::new();
    let ghost registered = devices@;
    writes.push(Write::SaveDevices(devices));
    assert(store::write_views(writes@) =~= seq![WriteView::SaveDevices(registered)]);
    Answer { writes, status: 201, body: Body::Device(device) }
}

/// The answer to the deletion of a device.
pub open spec fn deletion(devices: Map<Seq<char>, DeviceView>, id: Seq<char>) -> AnswerView {
    if devices.contains_key(id) {
        AnswerView {
            writes: seq![
                WriteView::SaveDevices(devices.remove(id)),
                WriteView::Delete(store::metrics_key_text(id)),
                WriteView::Delete(store::history_key_text(id)),
            ],
            status: 200,
            body: BodyView::Json(json::deleted_body(id)),
        }
    } else {
        unknown_device(id)
    }
}

fn delete_device(devices: DeviceMap, id: &str) -> (r: Answer)
    ensures
        r@ == deletion(devices@, id@),
{
    let mut devices = devices;
    if devices.remove(id) {
        let ghost left = devices@;
        let mut writes: Vec<Write> = Vec::new();
        writes.push(Write::SaveDevices(devices));
        writes.push(store::delete_metrics(id));
        writes.push(store::delete_history(id));
        assert(store::write_views(writes@) =~= seq![
            WriteView::SaveDevices(left),
            WriteView::Delete(store::metrics_key_text(id@)),
            WriteView::Delete(store::history_key_text(id@)),
        ]);
        Answer { writes, status: 200, body: Body::Json(json::deleted_json(id)) }
    } else {
        refuse_unknown(id)
    }
}

/// The records that a request for the device `id` needs.
pub open spec fn records_of(
    devices: Map<Seq<char>, DeviceView>,
    id: Seq<char>,
    with_metrics: bool,
    with_history: bool,
) -> StepView {
    if devices.contains_key(id) {
        StepView::LoadRecords {
            metrics_of: if with_metrics {
                seq![id]
            } else {
                Seq::empty()
            },
            histories_of: if with_history {
                seq![id]
            } else {
                Seq::empty()
            },
        }
    } else {
        StepView::Answer(unknown_device(id))
    }
}

/// The step for a request when the register has been read.
pub open spec fn step_with_devices(
    route: RouteView,
    devices: Map<Seq<char>, DeviceView>,
) -> StepView {
    match route {
        RouteView::ListDevices => StepView::Answer(
            reply(200, BodyView::Devices(device::devices_in_order(devices))),
        ),
        RouteView::DeleteDevice(id) => StepView::Answer(deletion(devices, id)),
        RouteView::AllMetrics => StepView::LoadRecords {
            metrics_of: device::key_order(devices),
            histories_of: Seq::empty(),
        },
        RouteView::DashboardData => StepView::LoadRecords {
            metrics_of: device::key_order(devices),
            histories_of: device::key_order(devices),
        },
        RouteView::DashboardPage => StepView::LoadRecords {
            metrics_of: device::key_order(devices),
            histories_of: device::key_order(devices),
        },
        RouteView::Metrics(id) => records_of(devices, id, true, false),
        RouteView::History(id) => records_of(devices, id, false, true),
        RouteView::DetailData(id) => records_of(devices, id, true, true),
        RouteView::DetailPage(id) => records_of(devices, id, true, true),
        RouteView::PollAll => StepView::Poll {
            prune: device::key_order(devices),
            devices: device::devices_in_order(devices),
        },
        RouteView::Poll(id) => if devices.contains_key(id) {
            StepView::Poll { prune: Seq::empty(), devices: seq![devices[id]] }
        } else {
            StepView::Answer(unknown_device(id))
        },
        _ => StepView::LoadDevices,
    }
}

fn want_records(devices: &DeviceMap, id: &String, with_metrics: bool, with_history: bool) -> (r:
    Step)
    ensures
        r@ == records_of(devices@, id@, with_metrics, with_history),
{
    if devices.contains_key(id.as_str()) {
        let mut metrics_of: Vec<String> = Vec::new();
        let mut histories_of: Vec<String> = Vec::new();
        if with_metrics {
            metrics_of.push(id.clone());
        }
        if with_history {
            histories_of.push(id.clone());
        }
        assert(text::texts(metrics_of@) =~= if with_metrics {
            seq![id@]
        } else {
            Seq::empty()
        });
        assert(text::texts(histories_of@) =~= if with_history {
            seq![id@]
        } else {
            Seq::empty()
        });
        Step::LoadRecords { metrics_of, histories_of }
    } else {
        Step::Answer(refuse_unknown(id.as_str()))
    }
}

/// Goes on with a request when the register has been read.
pub fn devices_loaded(route: &Route, devices: DeviceMap) -> (r: Step)
    requires
        needs_devices(route@),
    ensures
        r@ == step_with_devices(route@, devices@),
        device::is_key_order(device::key_order(devices@), devices@),
{
    proof {
        use_type_invariant(&devices);
        devices.has_key_order();
    }
    match route {
        Route::ListDevices => Step::Answer(make_reply(200, Body::Devices(devices.values()))),
        Route::DeleteDevice(id) => Step::Answer(delete_device(devices, id.as_str())),
        Route::AllMetrics => {
            let histories_of: Vec<String> = Vec::new();
            assert(text::texts(histories_of@) =~= Seq::<Seq<char>>::empty());
            Step::LoadRecords { metrics_of: devices.keys(), histories_of }
        },
        Route::DashboardData => Step::LoadRecords {
            metrics_of: devices.keys(),
            histories_of: devices.keys(),
        },
        Route::DashboardPage => Step::LoadRecords {
            metrics_of: devices.keys(),
            histories_of: devices.keys(),
        },
        Route::Metrics(id) => want_records(&devices, id, true, false),
        Route::History(id) => want_records(&devices, id, false, true),
        Route::DetailData(id) => want_records(&devices, id, true, true),
        Route::DetailPage(id) => want_records(&devices, id, true, true),
        Route::PollAll => Step::Poll { prune: devices.keys(), devices: devices.values() },
        Route::Poll(id) => match devices.get(id.as_str()) {
            Some(found) => {
                let prune: Vec<String> = Vec::new();
                assert(text::texts(prune@) =~= Seq::<Seq<char>>::empty());
                let mut named: Vec<Device> = Vec::new();
                named.push(found.clone());
                assert(device::device_views(named@) =~= seq![devices@[id@]]);
                Step::Poll { prune, devices: named }
            },
            None => Step::Answer(refuse_unknown(id.as_str())),
        },
        _ => Step::LoadDevices,
    }
}

/// The summaries of all devices at `now_secs`, from their metrics and histories in key order.
pub open spec fn summaries(
    devices: Map<Seq<char>, DeviceView>,
    list: Seq<MetricsView>,
    histories: Seq<Seq<CheckView>>,
    now_secs: u64,
) -> Seq<DashboardDeviceView> {
    Seq::new(
        device::key_order(devices).len(),
        |i: int|
            dashboard::summary(
                device::devices_in_order(devices)[i],
                list[i],
                histories[i],
                now_secs,
            ),
    )
}

/// The rows of all devices at `now_secs`, from their metrics and histories in key order.
pub open spec fn rows(
    devices: Map<Seq<char>, DeviceView>,
    list: Seq<MetricsView>,
    histories: Seq<Seq<CheckView>>,
    now_secs: u64,
) -> Seq<DashboardRowView> {
    Seq::new(
        device::key_order(devices).len(),
        |i: int|
            dashboard::row(
                device::key_order(devices)[i],
                device::devices_in_order(devices)[i],
                list[i],
                histories[i],
                now_secs,
            ),
    )
}

/// The records that were read are those that the request needs.
pub open spec fn records_fit(
    route: RouteView,
    devices: Map<Seq<char>, DeviceView>,
    list: Seq<MetricsView>,
    histories: Seq<Seq<CheckView>>,
) -> bool {
    &&& step_with_devices(route, devices) matches StepView::LoadRecords {
        metrics_of,
        histories_of,
    } && list.len() == metrics_of.len() && histories.len() == histories_of.len()
    &&& route is DetailData || route is DetailPage ==> history::response_times_addable(
        histories[0],
    )
}

/// The answer to a request when its records have been read.
pub open spec fn answer_with_records(
    route: RouteView,
    devices: Map<Seq<char>, DeviceView>,
    list: Seq<MetricsView>,
    histories: Seq<Seq<CheckView>>,
    now_secs: u64,
) -> AnswerView {
    match route {
        RouteView::Metrics(_) => reply(200, BodyView::Metrics(list[0])),
        RouteView::History(_) => reply(200, BodyView::History(histories[0])),
        RouteView::DashboardData => reply(
            200,
            BodyView::DashboardData(summaries(devices, list, histories, now_secs)),
        ),
        RouteView::DashboardPage => reply(
            200,
            BodyView::DashboardPage(rows(devices, list, histories, now_secs)),
        ),
        RouteView::DetailData(id) => reply(
            200,
            BodyView::DetailData(dashboard::detail(devices[id], list[0], histories[0], now_secs)),
        ),
        RouteView::DetailPage(id) => reply(
            200,
            BodyView::DetailPage(dashboard::detail(devices[id], list[0], histories[0], now_secs)),
        ),
        _ => reply(200, BodyView::MetricsList(list)),
    }
}

fn all_summaries(
    devices: &DeviceMap,
    list: &Vec<DeviceMetrics>,
    histories: &Vec<Vec<CheckResult>>,
    now_secs: u64,
) -> (r: Vec<DashboardDevice>)
    requires
        list@.len() == device::key_order(devices@).len(),
        histories@.len() == device::key_order(devices@).len(),
    ensures
        summary_views(r@) == summaries(
            devices@,
            metrics_views(list@),
            histories_views(histories@),
            now_secs,
        ),
{
    let found = devices.values();
    let ghost all = summaries(
        devices@,
        metrics_views(list@),
        histories_views(histories@),
        now_secs,
    );
    let ghost views = device::device_views(found@);
    let mut r: Vec<DashboardDevice> = Vec::new();
    let mut i: usize = 0;
    assert(views.len() == device::key_order(devices@).len());
    while i < found.len()
        invariant
            i <= found@.len(),
            views == device::device_views(found@),
            views == device::devices_in_order(devices@),
            list@.len() == found@.len(),
            histories@.len() == found@.len(),
            all == summaries(
                devices@,
                metrics_views(list@),
                histories_views(histories@),
                now_secs,
            ),
            all.len() == found@.len(),
            summary_views(r@) == all.take(i as int),
        decreases found@.len() - i,
    {
        let ghost done = summary_views(r@);
        let d = dashboard::dashboard_device(&found[i], &list[i], histories[i].as_slice(), now_secs);
        assert(views[i as int] == found@[i as int]@);
        assert(d@ == all[i as int]);
        r.push(d);
        assert(summary_views(r@) =~= done.push(d@));
        i = i + 1;
    }
    assert(all.take(i as int) == all);
    r
}

fn all_rows(
    devices: &DeviceMap,
    list: &Vec<DeviceMetrics>,
    histories: &Vec<Vec<CheckResult>>,
    now_secs: u64,
) -> (r: Vec<DashboardRow>)
    requires
        list@.len() == device::key_order(devices@).len(),
        histories@.len() == device::key_order(devices@).len(),
    ensures
        html::row_views(r@) == rows(
            devices@,
            metrics_views(list@),
            histories_views(histories@),
            now_secs,
        ),
{
    let keys = devices.keys();
    let found = devices.values();
    let ghost all = rows(devices@, metrics_views(list@), histories_views(histories@), now_secs);
    let ghost views = device::device_views(found@);
    let ghost names = text::texts(keys@);
    let mut r: Vec<DashboardRow> = Vec::new();
    let mut i: usize = 0;
    assert(views.len() == device::key_order(devices@).len());
    assert(names.len() == keys@.len());
    while i < found.len()
        invariant
            i <= found@.len(),
            views == device::device_views(found@),
            views == device::devices_in_order(devices@),
            names == text::texts(keys@),
            names == device::key_order(devices@),
            keys@.len() == found@.len(),
            list@.len() == found@.len(),
            histories@.len() == found@.len(),
            all == rows(devices@, metrics_views(list@), histories_views(histories@), now_secs),
            all.len() == found@.len(),
            html::row_views(r@) == all.take(i as int),
        decreases found@.len() - i,
    {
        let ghost done = html::row_views(r@);
        let d = dashboard::dashboard_row(
            keys[i].as_str(),
            &found[i],
            &list[i],
            histories[i].as_slice(),
            now_secs,
        );
        assert(views[i as int] == found@[i as int]@);
        assert(names[i as int] == keys@[i as int]@);
        assert(d@ == all[i as int]);
        r.push(d);
        assert(html::row_views(r@) =~= done.push(d@));
        i = i + 1;
    }
    assert(all.take(i as int) == all);
    r
}

/// Answers a request when its records have been read: `list` and `histories` are the metrics and
/// the histories of the devices that [`devices_loaded`] named, in the same order.
pub fn records_loaded(
    route: &Route,
    devices: &DeviceMap,
    list: Vec<DeviceMetrics>,
    histories: Vec<Vec<CheckResult>>,
    now_secs: u64,
) -> (r: Answer)
    requires
        records_fit(route@, devices@, metrics_views(list@), histories_views(histories@)),
    ensures
        r@ == answer_with_records(
            route@,
            devices@,
            metrics_views(list@),
            histories_views(histories@),
            now_secs,
        ),
        device::is_key_order(device::key_order(devices@), devices@),
{
    proof {
        use_type_invariant(devices);
        devices.has_key_order();
    }
    match route {
        Route::Metrics(_) => {
            let m = list[0].clone();
            assert(m@ == metrics_views(list@)[0]);
            make_reply(200, Body::Metrics(m))
        },
        Route::History(_) => {
            let h = histories[0].clone();
            assert(h@ =~= histories@[0]@);
            assert(history::check_views(h@) == histories_views(histories@)[0]);
            make_reply(200, Body::History(h))
        },
        Route::DashboardData => make_reply(
            200,
            Body::DashboardData(all_summaries(devices, &list, &histories, now_secs)),
        ),
        Route::DashboardPage => make_reply(
            200,
            Body::DashboardPage(all_rows(devices, &list, &histories, now_secs)),
        ),
        Route::DetailData(id) => {
            let found = devices.get(id.as_str()).unwrap();
            assert(metrics_views(list@)[0] == list@[0]@);
            assert(histories_views(histories@)[0] == history::check_views(histories@[0]@));
            make_reply(
                200,
                Body::DetailData(
                    dashboard::dashboard_detail(found, &list[0], histories[0].as_slice(), now_secs),
                ),
            )
        },
        Route::DetailPage(id) => {
            let found = devices.get(id.as_str()).unwrap();
            assert(metrics_views(list@)[0] == list@[0]@);
            assert(histories_views(histories@)[0] == history::check_views(histories@[0]@));
            make_reply(
                200,
                Body::DetailPage(
                    dashboard::dashboard_detail(found, &list[0], histories[0].as_slice(), now_secs),
                ),
            )
        },
        _ => make_reply(200, Body::MetricsList(list)),
    }
}

/// The answer to a request when the devices it names have been polled.
pub open spec fn answer_with_polls(route: RouteView, results: Seq<MetricsView>) -> AnswerView {
    match route {
        RouteView::Poll(_) => reply(200, BodyView::Metrics(results[0])),
        _ => reply(200, BodyView::MetricsList(results)),
    }
}

/// Answers a request when the devices it names have been polled, with their new metrics.
pub fn polled(route: &Route, results: Vec<DeviceMetrics>) -> (r: Answer)
    requires
        route@ is Poll ==> results@.len() == 1,
    ensures
        r@ == answer_with_polls(route@, metrics_views(results@)),
{
    match route {
        Route::Poll(_) => {
            let m = results[0].clone();
            assert(m@ == metrics_views(results@)[0]);
            make_reply(200, Body::Metrics(m))
        },
        _ => make_reply(200, Body::MetricsList(results)),
    }
}

/// A request for a device that is not registered is refused, whatever it asks for.
pub proof fn unknown_devices_are_refused(
    route: RouteView,
    devices: Map<Seq<char>, DeviceView>,
    id: Seq<char>,
)
    requires
        router::named_device(route) == Some(id),
        !devices.contains_key(id),
    ensures
        step_with_devices(route, devices) == StepView::Answer(unknown_device(id)),
{
}

/// A request for a registered device is not refused.
pub proof fn registered_devices_are_served(
    route: RouteView,
    devices: Map<Seq<char>, DeviceView>,
    id: Seq<char>,
)
    requires
        router::named_device(route) == Some(id),
        devices.contains_key(id),
    ensures
        match step_with_devices(route, devices) {
            StepView::Answer(answer) => answer.status == 200,
            StepView::LoadRecords { metrics_of, histories_of } => {
                &&& forall|i: int| 0 <= i < metrics_of.len() ==> metrics_of[i] == id
                &&& forall|i: int| 0 <= i < histories_of.len() ==> histories_of[i] == id
                &&& metrics_of.len() + histories_of.len() > 0
            },
            StepView::Poll { prune, devices: named } => named == seq![devices[id]],
            _ => false,
        },
{
}

/// Only registrations and deletions write to the store when they are answered, and an answer
/// other than 200 or 201 writes nothing.
pub proof fn only_changes_are_written(
    route: RouteView,
    version: Seq<char>,
    devices: Map<Seq<char>, DeviceView>,
    list: Seq<MetricsView>,
    histories: Seq<Seq<CheckView>>,
    now_secs: u64,
)
    ensures
        first_step(route, version) matches StepView::Answer(answer) ==> answer.writes.len() == 0,
        step_with_devices(route, devices) matches StepView::Answer(answer) ==> {
            &&& answer.status != 200 ==> answer.writes.len() == 0
            &&& route !is DeleteDevice ==> answer.writes.len() == 0
        },
        answer_with_records(route, devices, list, histories, now_secs).writes.len() == 0,
        answer_with_polls(route, list).writes.len() == 0,
{
}

/// A registered device is found under its id, exactly as it was given; all other devices and all
/// metrics and histories stay as they were.
pub proof fn registered_devices_are_found(
    kept: Map<Seq<char>, Stored>,
    device: DeviceView,
    other: Seq<char>,
)
    ensures
        ({
            let before = store::devices_in(kept);
            let after = store::all_written(kept, registration(before, device).writes);
            let devices = store::devices_in(after);
            &&& devices.contains_key(device.id)
            &&& devices[device.id] == device
            &&& other != device.id ==> devices.contains_key(other) == before.contains_key(other)
            &&& other != device.id && before.contains_key(other) ==> devices[other]
                == before[other]
            &&& store::metrics_in(after, other) == store::metrics_in(kept, other)
            &&& store::history_in(after, other) == store::history_in(kept, other)
        }),
{
    let before = store::devices_in(kept);
    let writes = registration(before, device).writes;
    store::one_write(kept, writes);
    store::reads_give_back_writes(
        kept,
        before.insert(device.id, device),
        metrics::fresh(other),
        store::no_history(other),
        other,
    );
}

/// A deleted device is gone: it is no longer registered, its metrics and history read as those of
/// a device that was never checked, and every request for it is refused. All other devices keep
/// everything.
pub proof fn deleted_devices_are_gone(
    kept: Map<Seq<char>, Stored>,
    id: Seq<char>,
    route: RouteView,
    other: Seq<char>,
)
    requires
        store::devices_in(kept).contains_key(id),
        router::named_device(route) == Some(id),
    ensures
        ({
            let before = store::devices_in(kept);
            let after = store::all_written(kept, deletion(before, id).writes);
            let devices = store::devices_in(after);
            &&& devices == before.remove(id)
            &&& step_with_devices(route, devices) == StepView::Answer(unknown_device(id))
            &&& store::metrics_in(after, id) == metrics::fresh(id)
            &&& store::history_in(after, id) == Seq::<CheckView>::empty()
            &&& other != id ==> store::metrics_in(after, other) == store::metrics_in(kept, other)
            &&& other != id ==> store::history_in(after, other) == store::history_in(kept, other)
        }),
{
    let before = store::devices_in(kept);
    let writes = deletion(before, id).writes;
    store::three_writes(kept, writes);
    let left = before.remove(id);
    let first = store::written(kept, writes[0]);
    let second = store::written(first, writes[1]);
    store::reads_give_back_writes(kept, left, metrics::fresh(id), store::no_history(id), other);
    store::reads_give_back_writes(kept, left, metrics::fresh(id), store::no_history(id), id);
    store::deleted_reads_as_new(first, id, other);
    store::deleted_reads_as_new(second, id, other);
    store::keys_never_collide(id, id);
}

/// A register without devices has every device under its own id, and so has every register that
/// registrations and deletions save.
pub proof fn devices_stand_under_their_ids(
    devices: Map<Seq<char>, DeviceView>,
    device: DeviceView,
    id: Seq<char>,
)
    requires
        device::keyed_by_id(devices),
    ensures
        device::keyed_by_id(Map::empty()),
        registration(devices, device).writes[0] matches WriteView::SaveDevices(saved)
            && device::keyed_by_id(saved),
        devices.contains_key(id) ==> (deletion(devices, id).writes[0] matches
            WriteView::SaveDevices(saved) && device::keyed_by_id(saved)),
{
}

/// Registering a new device and deleting it again leaves the register as it was.
pub proof fn deletion_undoes_registration(
    devices: Map<Seq<char>, DeviceView>,
    device: DeviceView,
)
    requires
        !devices.contains_key(device.id),
    ensures
        ({
            let registered = devices.insert(device.id, device);
            &&& registration(devices, device).writes == seq![WriteView::SaveDevices(registered)]
            &&& deletion(registered, device.id).writes[0] == WriteView::SaveDevices(devices)
            &&& deletion(registered, device.id).status == 200
        }),
{
    let registered = devices.insert(device.id, device);
    assert(registered.remove(device.id) =~= devices);
}

/// The dashboard shows every registered device once, in the order of the ids, with the device's
/// own figures.
pub proof fn dashboard_shows_every_device(
    devices: Map<Seq<char>, DeviceView>,
    list: Seq<MetricsView>,
    histories: Seq<Seq<CheckView>>,
    now_secs: u64,
    keys: Seq<Seq<char>>,
)
    requires
        device::is_key_order(keys, devices),
    ensures
        rows(devices, list, histories, now_secs).len() == keys.len(),
        summaries(devices, list, histories, now_secs).len() == keys.len(),
        forall|i: int|
            0 <= i < keys.len() ==> {
                &&& (#[trigger] rows(devices, list, histories, now_secs)[i]).id == keys[i]
                &&& rows(devices, list, histories, now_secs)[i] == dashboard::row(
                    keys[i],
                    devices[keys[i]],
                    list[i],
                    histories[i],
                    now_secs,
                )
            },
        forall|i: int|
            0 <= i < keys.len() ==> #[trigger] summaries(devices, list, histories, now_secs)[i]
                == dashboard::summary(devices[keys[i]], list[i], histories[i], now_secs),
{
    device::key_order_unique(keys, devices);
}

/// A list of all devices or of their metrics, and a poll of all, reach every registered device
/// once and no other, in the order of the ids.
pub proof fn every_device_is_listed_and_polled(
    devices: Map<Seq<char>, DeviceView>,
    keys: Seq<Seq<char>>,
)
    requires
        device::is_key_order(keys, devices),
    ensures
        ({
            let all = keys.map_values(|k: Seq<char>| devices[k]);
            &&& step_with_devices(RouteView::ListDevices, devices) == StepView::Answer(
                reply(200, BodyView::Devices(all)),
            )
            &&& step_with_devices(RouteView::AllMetrics, devices) == (StepView::LoadRecords {
                metrics_of: keys,
                histories_of: Seq::empty(),
            })
            &&& step_with_devices(RouteView::PollAll, devices) == (StepView::Poll {
                prune: keys,
                devices: all,
            })
        }),
        forall|id: Seq<char>| devices.contains_key(id) <==> #[trigger] keys.contains(id),
        keys.no_duplicates(),
{
    device::key_order_unique(keys, devices);
    assert forall|i: int, j: int| 0 <= i < keys.len() && 0 <= j < keys.len() && i
        != j implies keys[i] != keys[j] by {
        text::text_before_irreflexive(keys[i]);
    }
}

/// The page and the data of a device show the same figures.
pub proof fn page_and_data_agree(
    id: Seq<char>,
    devices: Map<Seq<char>, DeviceView>,
    list: Seq<MetricsView>,
    histories: Seq<Seq<CheckView>>,
    now_secs: u64,
)
    ensures
        ({
            let data = answer_with_records(
                RouteView::DetailData(id),
                devices,
                list,
                histories,
                now_secs,
            );
            let page = answer_with_records(
                RouteView::DetailPage(id),
                devices,
                list,
                histories,
                now_secs,
            );
            &&& data.status == page.status
            &&& data.body matches BodyView::DetailData(shown) && page.body
                == BodyView::DetailPage(shown)
        }),
{
}

/// In contracts bodies, answers and steps have the content that they have in code.
pub proof fn bodies_stand_for_their_content(body: Body, answer: Answer)
    ensures
        body matches Body::Json(bytes) ==> body@ == BodyView::Json(bytes@),
        body matches Body::Devices(list) ==> body@ == BodyView::Devices(
            device::device_views(list@),
        ),
        body matches Body::Device(d) ==> body@ == BodyView::Device(d@),
        body matches Body::MetricsList(list) ==> body@ == BodyView::MetricsList(
            metrics_views(list@),
        ),
        body matches Body::Metrics(m) ==> body@ == BodyView::Metrics(m@),
        body matches Body::History(checks) ==> body@ == BodyView::History(
            history::check_views(checks@),
        ),
        body matches Body::DashboardData(list) ==> body@ == BodyView::DashboardData(
            summary_views(list@),
        ),
        body matches Body::DetailData(d) ==> body@ == BodyView::DetailData(d@),
        body matches Body::DashboardPage(rows) ==> body@ == BodyView::DashboardPage(
            html::row_views(rows@),
        ),
        body matches Body::DetailPage(d) ==> body@ == BodyView::DetailPage(d@),
        answer@.status == answer.status,
        answer@.body == answer.body@,
        answer@.writes == store::write_views(answer.writes@),
{
}

/// In contracts steps have the content that they have in code.
pub proof fn steps_stand_for_their_content(step: Step)
    ensures
        step matches Step::Answer(answer) ==> step@ == StepView::Answer(answer@),
        step is ReadBody <==> step@ is ReadBody,
        step is LoadDevices <==> step@ is LoadDevices,
        step matches Step::LoadRecords { metrics_of, histories_of } ==> step@ == (
        StepView::LoadRecords {
            metrics_of: text::texts(metrics_of@),
            histories_of: text::texts(histories_of@),
        }),
        step matches Step::Poll { prune, devices } ==> step@ == (StepView::Poll {
            prune: text::texts(prune@),
            devices: device::device_views(devices@),
        }),
{
}

/// In contracts lists have the elements that they have in code, one by one.
pub proof fn lists_stand_for_their_elements(
    list: Seq<DeviceMetrics>,
    histories: Seq<Vec<CheckResult>>,
    summaries: Seq<DashboardDevice>,
    rows: Seq<DashboardRow>,
    i: int,
)
    ensures
        metrics_views(list).len() == list.len(),
        0 <= i < list.len() ==> metrics_views(list)[i] == list[i]@,
        histories_views(histories).len() == histories.len(),
        0 <= i < histories.len() ==> histories_views(histories)[i] == history::check_views(
            histories[i]@,
        ),
        summary_views(summaries).len() == summaries.len(),
        0 <= i < summaries.len() ==> summary_views(summaries)[i] == summaries[i]@,
        html::row_views(rows).len() == rows.len(),
        0 <= i < rows.len() ==> html::row_views(rows)[i] == rows[i]@,
{
}

/// A refusal has its own status and message and writes nothing, and a device that is not known is
/// refused as not found, with its id.
pub proof fn refusals_tell_why(status: u16, message: Seq<char>, id: Seq<char>, body: BodyView)
    ensures
        reply(status, body).status == status,
        reply(status, body).body == body,
        reply(status, body).writes.len() == 0,
        refusal(status, message).status == status,
        refusal(status, message).body == BodyView::Json(json::error_body(message)),
        refusal(status, message).writes.len() == 0,
        unknown_device(id).status == 404,
        unknown_device(id).writes.len() == 0,
        unknown_device(id).body == BodyView::Json(
            json::error_body("device '"@ + id + "' not found"@),
        ),
{
}

/// A health check is answered at once, and so is a request for what is not served; a registration
/// is read first, and for everything else the register.
pub proof fn requests_begin(route: RouteView, version: Seq<char>)
    ensures
        ({
            let step = first_step(route, version);
            &&& route is Health ==> (step matches StepView::Answer(a) && a.status == 200
                && a.writes.len() == 0 && a.body == BodyView::Json(json::health_body(version)))
            &&& route matches RouteView::NotFound(path) ==> (step matches StepView::Answer(a)
                && a.status == 404 && a.writes.len() == 0 && a.body == BodyView::Json(
                json::error_body("not found: "@ + path),
            ))
            &&& step is ReadBody <==> route is CreateDevice
            &&& step is LoadDevices <==> needs_devices(route)
            &&& step is LoadDevices <==> !(route is Health || route is NotFound
                || route is CreateDevice)
        }),
{
}

/// A registration is complete exactly if it leaves neither id nor name nor URL empty, and asks for
/// the device with just what it says.
pub proof fn registrations_say_what_they_ask_for(req: CreateDeviceRequest)
    ensures
        !complete(req) <==> req.id@.len() == 0 || req.name@.len() == 0 || req.url@.len() == 0,
        requested(req).id == req.id@,
        requested(req).name == req.name@,
        requested(req).url == req.url@,
        requested(req).expected_status == req.expected_status,
{
}

/// A registration is answered with 201 and the device as it was registered; it saves the register
/// with the device under its id and all others as they were, and nothing else. A deletion of a
/// registered device is answered with 200 and its id; it saves the register without the device
/// and deletes its metrics and its history.
pub proof fn changes_are_answered(
    devices: Map<Seq<char>, DeviceView>,
    device: DeviceView,
    id: Seq<char>,
    other: Seq<char>,
)
    ensures
        ({
            let a = registration(devices, device);
            &&& a.status == 201
            &&& a.body == BodyView::Device(device)
            &&& a.writes.len() == 1
            &&& a.writes[0] matches WriteView::SaveDevices(saved) && {
                &&& saved.contains_key(device.id) && saved[device.id] == device
                &&& other != device.id ==> saved.contains_key(other) == devices.contains_key(other)
                &&& other != device.id && devices.contains_key(other) ==> saved[other]
                    == devices[other]
            }
        }),
        devices.contains_key(id) ==> {
            let a = deletion(devices, id);
            &&& a.status == 200
            &&& a.body == BodyView::Json(json::deleted_body(id))
            &&& a.writes.len() == 3
            &&& a.writes[0] matches WriteView::SaveDevices(saved) && {
                &&& !saved.contains_key(id)
                &&& other != id ==> saved.contains_key(other) == devices.contains_key(other)
                &&& other != id && devices.contains_key(other) ==> saved[other] == devices[other]
            }
            &&& a.writes[1] == WriteView::Delete("uptime:metrics:"@ + id)
            &&& a.writes[2] == WriteView::Delete("uptime:history:"@ + id)
        },
        !devices.contains_key(id) ==> {
            let a = deletion(devices, id);
            &&& a.status == 404
            &&& a.writes.len() == 0
            &&& a.body == BodyView::Json(json::error_body("device '"@ + id + "' not found"@))
        },
{
}

/// For a registered device exactly those of its records are read that the answer shows, and a poll
/// of it polls the device as it is registered and prunes nothing.
pub proof fn requests_for_a_device_read_its_records(
    devices: Map<Seq<char>, DeviceView>,
    id: Seq<char>,
)
    requires
        devices.contains_key(id),
    ensures
        step_with_devices(RouteView::Metrics(id), devices) matches StepView::LoadRecords {
            metrics_of,
            histories_of,
        } && metrics_of == seq![id] && histories_of.len() == 0,
        step_with_devices(RouteView::History(id), devices) matches StepView::LoadRecords {
            metrics_of,
            histories_of,
        } && metrics_of.len() == 0 && histories_of == seq![id],
        step_with_devices(RouteView::DetailData(id), devices) matches StepView::LoadRecords {
            metrics_of,
            histories_of,
        } && metrics_of == seq![id] && histories_of == seq![id],
        step_with_devices(RouteView::DetailPage(id), devices) == step_with_devices(
            RouteView::DetailData(id),
            devices,
        ),
        step_with_devices(RouteView::Poll(id), devices) matches StepView::Poll {
            prune,
            devices: named,
        } && prune.len() == 0 && named == seq![devices[id]],
        step_with_devices(RouteView::DeleteDevice(id), devices) == StepView::Answer(
            deletion(devices, id),
        ),
{
}

/// For the dashboard, as data or as a page, the metrics and the history of every registered device
/// are read, in the order of the ids.
pub proof fn the_dashboard_reads_all_records(
    devices: Map<Seq<char>, DeviceView>,
    keys: Seq<Seq<char>>,
)
    requires
        device::is_key_order(keys, devices),
    ensures
        step_with_devices(RouteView::DashboardData, devices) == (StepView::LoadRecords {
            metrics_of: keys,
            histories_of: keys,
        }),
        step_with_devices(RouteView::DashboardPage, devices) == (StepView::LoadRecords {
            metrics_of: keys,
            histories_of: keys,
        }),
{
    device::key_order_unique(keys, devices);
}

/// The metrics of some devices in a store, one by one.
pub open spec fn loaded_metrics(kept: Map<Seq<char>, Stored>, ids: Seq<Seq<char>>) -> Seq<
    MetricsView,
> {
    Seq::new(ids.len(), |i: int| store::metrics_in(kept, ids[i]))
}

/// The histories of some devices in a store, one by one.
pub open spec fn loaded_histories(kept: Map<Seq<char>, Stored>, ids: Seq<Seq<char>>) -> Seq<
    Seq<CheckView>,
> {
    Seq::new(ids.len(), |i: int| store::history_in(kept, ids[i]))
}

/// The answer to a request of this kind where `kept` is what the store holds: the records that
/// the request asks for are read from it.
pub open spec fn answer_from_store(
    route: RouteView,
    kept: Map<Seq<char>, Stored>,
    now_secs: u64,
) -> AnswerView {
    let devices = store::devices_in(kept);
    match step_with_devices(route, devices) {
        StepView::LoadRecords { metrics_of, histories_of } => answer_with_records(
            route,
            devices,
            loaded_metrics(kept, metrics_of),
            loaded_histories(kept, histories_of),
            now_secs,
        ),
        StepView::Answer(answer) => answer,
        _ => reply(200, BodyView::MetricsList(Seq::empty())),
    }
}

/// A request for the metrics or the history of a registered device is answered with what the store
/// holds for it, as it is, and nothing is written. The records that it asks for are enough.
pub proof fn records_are_served_as_stored(
    kept: Map<Seq<char>, Stored>,
    id: Seq<char>,
    now_secs: u64,
)
    requires
        store::devices_in(kept).contains_key(id),
    ensures
        ({
            let a = answer_from_store(RouteView::Metrics(id), kept, now_secs);
            &&& a.status == 200
            &&& a.body == BodyView::Metrics(store::metrics_in(kept, id))
            &&& a.writes.len() == 0
        }),
        ({
            let a = answer_from_store(RouteView::History(id), kept, now_secs);
            &&& a.status == 200
            &&& a.body == BodyView::History(store::history_in(kept, id))
            &&& a.writes.len() == 0
        }),
        records_fit(
            RouteView::Metrics(id),
            store::devices_in(kept),
            seq![store::metrics_in(kept, id)],
            Seq::empty(),
        ),
        records_fit(
            RouteView::History(id),
            store::devices_in(kept),
            Seq::empty(),
            seq![store::history_in(kept, id)],
        ),
{
}

/// After a poll of a registered device a request for its metrics gives back, in every field, what
/// that poll recorded, and a request for its history ends with the check that it made.
pub proof fn polls_are_read_back(
    kept: Map<Seq<char>, Stored>,
    device: DeviceView,
    outcome: OutcomeView,
    timestamp: Seq<char>,
    epoch: u64,
    now_secs: u64,
    later: u64,
)
    requires
        store::devices_in(kept).contains_key(device.id),
        store::metrics_in(kept, device.id).device_id == device.id,
    ensures
        ({
            let after = poll::store_after_poll(kept, device, outcome, timestamp, epoch, now_secs);
            let before = store::metrics_in(kept, device.id);
            &&& answer_from_store(RouteView::Metrics(device.id), after, later).body
                == BodyView::Metrics(poll::metrics_after(device, before, outcome, timestamp))
            &&& answer_from_store(RouteView::History(device.id), after, later).body matches
                BodyView::History(checks) && checks.len() > 0 && checks.last() == poll::check_of(
                device,
                outcome,
                timestamp,
                epoch,
            )
        }),
{
    let after = poll::store_after_poll(kept, device, outcome, timestamp, epoch, now_secs);
    poll::polls_are_recorded(kept, device, outcome, timestamp, epoch, now_secs, device.id);
    records_are_served_as_stored(after, device.id, later);
}

/// A request for all metrics is answered with those that the store holds for the registered
/// devices, one for each, in the order of the ids.
pub proof fn all_metrics_are_served_as_stored(
    kept: Map<Seq<char>, Stored>,
    keys: Seq<Seq<char>>,
    now_secs: u64,
    i: int,
)
    requires
        device::is_key_order(keys, store::devices_in(kept)),
    ensures
        ({
            let a = answer_from_store(RouteView::AllMetrics, kept, now_secs);
            &&& a.status == 200
            &&& a.writes.len() == 0
            &&& a.body matches BodyView::MetricsList(list) && list.len() == keys.len() && (0 <= i
                < keys.len() ==> list[i] == store::metrics_in(kept, keys[i]))
        }),
{
    device::key_order_unique(keys, store::devices_in(kept));
}

/// The dashboard shows every registered device, in the order of the ids, with what the store holds
/// for it: the row and the summary of a device are up exactly if its metrics say so, show their
/// uptime and response time, and the bar of its whole history.
pub proof fn the_dashboard_shows_what_is_stored(
    kept: Map<Seq<char>, Stored>,
    keys: Seq<Seq<char>>,
    now_secs: u64,
    i: int,
)
    requires
        device::is_key_order(keys, store::devices_in(kept)),
    ensures
        ({
            let devices = store::devices_in(kept);
            let data = answer_from_store(RouteView::DashboardData, kept, now_secs);
            let page = answer_from_store(RouteView::DashboardPage, kept, now_secs);
            &&& data.status == 200 && page.status == 200
            &&& data.writes.len() == 0 && page.writes.len() == 0
            &&& data.body matches BodyView::DashboardData(list) && page.body matches
                BodyView::DashboardPage(rows) && {
                &&& list.len() == keys.len() && rows.len() == keys.len()
                &&& 0 <= i < keys.len() ==> {
                    let device = devices[keys[i]];
                    let m = store::metrics_in(kept, keys[i]);
                    let bar = history::bar(store::history_in(kept, keys[i]), now_secs);
                    &&& list[i].id == device.id && list[i].name == device.name
                    &&& list[i].url == device.url
                    &&& list[i].is_up == m.is_up
                    &&& list[i].uptime_percentage == m.uptime_percentage
                    &&& list[i].response_time_ms == m.response_time_ms
                    &&& list[i].last_checked == m.last_checked
                    &&& list[i].bar == bar
                    &&& rows[i].id == keys[i] && rows[i].name == device.name
                    &&& rows[i].is_up == m.is_up
                    &&& rows[i].uptime_percentage == m.uptime_percentage
                    &&& rows[i].response_time_ms == m.response_time_ms
                    &&& rows[i].bar == bar
                }
            }
        }),
{
    device::key_order_unique(keys, store::devices_in(kept));
}

/// The details of a registered device, as data or as a page, are made of the device as it is
/// registered and of what the store holds for it, and show the bar of its whole history.
pub proof fn details_show_what_is_stored(
    kept: Map<Seq<char>, Stored>,
    id: Seq<char>,
    now_secs: u64,
)
    requires
        store::devices_in(kept).contains_key(id),
    ensures
        ({
            let device = store::devices_in(kept)[id];
            let m = store::metrics_in(kept, id);
            let checks = store::history_in(kept, id);
            let data = answer_from_store(RouteView::DetailData(id), kept, now_secs);
            let page = answer_from_store(RouteView::DetailPage(id), kept, now_secs);
            &&& data.status == 200 && page.status == 200
            &&& data.writes.len() == 0 && page.writes.len() == 0
            &&& data.body matches BodyView::DetailData(d) && page.body == BodyView::DetailPage(d)
                && {
                &&& d.id == device.id && d.name == device.name && d.url == device.url
                &&& d.is_up == m.is_up
                &&& d.uptime_all == m.uptime_percentage
                &&& d.consecutive_failures == m.consecutive_failures
                &&& d.total_checks == m.total_checks
                &&& d.bar == history::bar(checks, now_secs)
                &&& d.avg_response_ms == history::avg_response_ms(checks)
                &&& d.recent_checks == history::recent(checks)
                &&& checks.len() <= u64::MAX ==> d.checks_24h == checks.len()
                &&& d == dashboard::detail(device, m, checks, now_secs)
            }
        }),
{
}

/// A poll is answered with the metrics that it gave: those of the device, or the list of all.
pub proof fn polls_are_answered(results: Seq<MetricsView>, id: Seq<char>)
    ensures
        ({
            let a = answer_with_polls(RouteView::PollAll, results);
            &&& a.status == 200 && a.writes.len() == 0
            &&& a.body == BodyView::MetricsList(results)
        }),
        results.len() == 1 ==> {
            let a = answer_with_polls(RouteView::Poll(id), results);
            &&& a.status == 200 && a.writes.len() == 0
            &&& a.body == BodyView::Metrics(results[0])
        },
{
}

} // verus!
