//! What is kept in the key-value store, and under which keys.

use vstd::prelude::*;
use vstd::string::*;

use crate::device::{DeviceMap, DeviceView};
use crate::history::{CheckResult, CheckView, DeviceHistory, DeviceHistoryView};
use crate::metrics::{DeviceMetrics, MetricsView};
use crate::{device, history, metrics};

verus! {

/// The backend that is opened.
pub const KV_BACKEND: &'static str = "in_memory";

/// The key of the registered devices.
pub const KV_DEVICES_KEY: &'static str = "uptime:devices";

/// What the keys of metrics begin with.
pub const KV_METRICS_PREFIX: &'static str = "uptime:metrics:";

/// What the keys of check histories begin with.
pub const KV_HISTORY_PREFIX: &'static str = "uptime:history:";

/// The key of the metrics of a device.
pub open spec fn metrics_key_text(device_id: Seq<char>) -> Seq<char> {
    KV_METRICS_PREFIX@ + device_id
}

/// The key of the check history of a device.
pub open spec fn history_key_text(device_id: Seq<char>) -> Seq<char> {
    KV_HISTORY_PREFIX@ + device_id
}

/// The key of the metrics of a device.
pub fn metrics_key(device_id: &str) -> (r: String)
    ensures
        r@ == metrics_key_text(device_id@),
{
    KV_METRICS_PREFIX.to_owned().concat(device_id)
}

/// The key of the check history of a device.
pub fn history_key(device_id: &str) -> (r: String)
    ensures
        r@ == history_key_text(device_id@),
{
    KV_HISTORY_PREFIX.to_owned().concat(device_id)
}

/// A change of the store.
pub enum Write {
    /// Put the registered devices under their key.
    SaveDevices(DeviceMap),
    /// Put metrics under the key of their device.
    SaveMetrics(DeviceMetrics),
    /// Put a check history under the key of its device.
    SaveHistory(DeviceHistory),
    /// Take out what is under a key.
    Delete(String),
}

/// What a [`Write`] is, in terms of its texts.
pub enum WriteView {
    SaveDevices(Map<Seq<char>, DeviceView>),
    SaveMetrics(MetricsView),
    SaveHistory(DeviceHistoryView),
    Delete(Seq<char>),
}

impl View for Write {
    type V = WriteView;

    open spec fn view(&self) -> WriteView {
        match *self {
            Write::SaveDevices(devices) => WriteView::SaveDevices(devices@),
            Write::SaveMetrics(metrics) => WriteView::SaveMetrics(metrics@),
            Write::SaveHistory(history) => WriteView::SaveHistory(history@),
            Write::Delete(key) => WriteView::Delete(key@),
        }
    }
}

/// The writes `writes` as they appear in contracts.
pub open spec fn write_views(writes: Seq<Write>) -> Seq<WriteView> {
    writes.map_values(|w: Write| w@)
}

/// The key that a write changes.
pub open spec fn written_key(w: WriteView) -> Seq<char> {
    match w {
        WriteView::SaveDevices(_) => KV_DEVICES_KEY@,
        WriteView::SaveMetrics(m) => metrics_key_text(m.device_id),
        WriteView::SaveHistory(h) => history_key_text(h.device_id),
        WriteView::Delete(key) => key,
    }
}

impl Write {
    /// The key that the write changes.
    pub fn key(&self) -> (r: String)
        ensures
            r@ == written_key(self@),
    {
        match self {
            Write::SaveDevices(_) => KV_DEVICES_KEY.to_owned(),
            Write::SaveMetrics(m) => metrics_key(m.device_id.as_str()),
            Write::SaveHistory(h) => history_key(h.device_id.as_str()),
            Write::Delete(key) => key.clone(),
        }
    }
}

/// Delete metrics for a device.
pub fn delete_metrics(device_id: &str) -> (r: Write)
    ensures
        r@ == WriteView::Delete(metrics_key_text(device_id@)),
{
    Write::Delete(metrics_key(device_id))
}

/// Delete check history for a device.
pub fn delete_history(device_id: &str) -> (r: Write)
    ensures
        r@ == WriteView::Delete(history_key_text(device_id@)),
{
    Write::Delete(history_key(device_id))
}

/// The registered devices, where nothing readable is stored for them: none.
pub fn load_devices(stored: Option<DeviceMap>) -> (r: DeviceMap)
    ensures
        r@ == match stored {
            Some(devices) => devices@,
            None => Map::<Seq<char>, DeviceView>::empty(),
        },
{
    match stored {
        Some(devices) => devices,
        None => DeviceMap::new(),
    }
}

/// The metrics of a device, where nothing readable is stored for it: those of a device that was
/// never checked.
pub fn load_metrics(device_id: &str, stored: Option<DeviceMetrics>) -> (r: DeviceMetrics)
    ensures
        r@ == match stored {
            Some(m) => m@,
            None => metrics::fresh(device_id@),
        },
{
    match stored {
        Some(m) => m,
        None => DeviceMetrics::new(device_id),
    }
}

/// The check history of a device, where nothing readable is stored for it: no checks.
pub fn load_history(stored: Option<Vec<CheckResult>>) -> (r: Vec<CheckResult>)
    ensures
        history::check_views(r@) == match stored {
            Some(checks) => history::check_views(checks@),
            None => Seq::<CheckView>::empty(),
        },
{
    match stored {
        Some(checks) => checks,
        None => {
            let none: Vec<CheckResult> = Vec::new();
            assert(history::check_views(none@) =~= Seq::<CheckView>::empty());
            none
        },
    }
}

/// A value in the store.
pub enum Stored {
    Devices(Map<Seq<char>, DeviceView>),
    Metrics(MetricsView),
    History(Seq<CheckView>),
}

/// The store after a write.
pub open spec fn written(store: Map<Seq<char>, Stored>, w: WriteView) -> Map<Seq<char>, Stored> {
    match w {
        WriteView::SaveDevices(devices) => store.insert(written_key(w), Stored::Devices(devices)),
        WriteView::SaveMetrics(m) => store.insert(written_key(w), Stored::Metrics(m)),
        WriteView::SaveHistory(h) => store.insert(written_key(w), Stored::History(h.history)),
        WriteView::Delete(key) => store.remove(key),
    }
}

/// The store after some writes, one after the other.
pub open spec fn all_written(store: Map<Seq<char>, Stored>, writes: Seq<WriteView>) -> Map<
    Seq<char>,
    Stored,
>
    decreases writes.len(),
{
    if writes.len() == 0 {
        store
    } else {
        written(all_written(store, writes.drop_last()), writes.last())
    }
}

/// The effect of one write alone.
pub(crate) proof fn one_write(store: Map<Seq<char>, Stored>, writes: Seq<WriteView>)
    requires
        writes.len() == 1,
    ensures
        all_written(store, writes) == written(store, writes[0]),
{
    assert(all_written(store, writes.drop_last()) == store);
}

/// The effect of two writes.
pub(crate) proof fn two_writes(store: Map<Seq<char>, Stored>, writes: Seq<WriteView>)
    requires
        writes.len() == 2,
    ensures
        all_written(store, writes) == written(written(store, writes[0]), writes[1]),
{
    one_write(store, writes.drop_last());
}

/// The effect of three writes.
pub(crate) proof fn three_writes(store: Map<Seq<char>, Stored>, writes: Seq<WriteView>)
    requires
        writes.len() == 3,
    ensures
        all_written(store, writes) == written(
            written(written(store, writes[0]), writes[1]),
            writes[2],
        ),
{
    two_writes(store, writes.drop_last());
}

/// The devices that are read from a store.
pub open spec fn devices_in(store: Map<Seq<char>, Stored>) -> Map<Seq<char>, DeviceView> {
    if store.contains_key(KV_DEVICES_KEY@) {
        match store[KV_DEVICES_KEY@] {
            Stored::Devices(devices) => devices,
            _ => Map::empty(),
        }
    } else {
        Map::empty()
    }
}

/// The metrics of a device that are read from a store. Their percentage stands for the number
/// that is read, which is that of the saved percentage up to the rounding of JSON: a share that
/// was saved comes back as a number and no longer as the two counters.
pub open spec fn metrics_in(store: Map<Seq<char>, Stored>, device_id: Seq<char>) -> MetricsView {
    let key = metrics_key_text(device_id);
    if store.contains_key(key) {
        match store[key] {
            Stored::Metrics(m) => m,
            _ => metrics::fresh(device_id),
        }
    } else {
        metrics::fresh(device_id)
    }
}

/// The check history of a device that is read from a store.
pub open spec fn history_in(store: Map<Seq<char>, Stored>, device_id: Seq<char>) -> Seq<CheckView> {
    let key = history_key_text(device_id);
    if store.contains_key(key) {
        match store[key] {
            Stored::History(checks) => checks,
            _ => Seq::empty(),
        }
    } else {
        Seq::empty()
    }
}

/// An empty history of a device.
pub open spec fn no_history(device_id: Seq<char>) -> DeviceHistoryView {
    DeviceHistoryView { device_id, history: Seq::empty() }
}

/// No two things share a key: neither metrics or histories of different devices, nor metrics,
/// a history and the register.
pub proof fn keys_never_collide(a: Seq<char>, b: Seq<char>)
    ensures
        metrics_key_text(a) == metrics_key_text(b) ==> a == b,
        history_key_text(a) == history_key_text(b) ==> a == b,
        metrics_key_text(a) != history_key_text(b),
        metrics_key_text(a) != KV_DEVICES_KEY@,
        history_key_text(a) != KV_DEVICES_KEY@,
{
    reveal_strlit("uptime:devices");
    reveal_strlit("uptime:metrics:");
    reveal_strlit("uptime:history:");
    let n = KV_METRICS_PREFIX@.len() as int;
    assert(metrics_key_text(a).skip(n) == a);
    assert(metrics_key_text(b).skip(n) == b);
    assert(history_key_text(a).skip(n) == a);
    assert(history_key_text(b).skip(n) == b);
    assert(metrics_key_text(a)[7] == 'm');
    assert(history_key_text(a)[7] == 'h');
    assert(history_key_text(b)[7] == 'h');
    assert(KV_DEVICES_KEY@[7] == 'd');
}

/// What was saved is read back, and saving one thing leaves all others as they were.
pub proof fn reads_give_back_writes(
    store: Map<Seq<char>, Stored>,
    devices: Map<Seq<char>, DeviceView>,
    m: MetricsView,
    h: DeviceHistoryView,
    other: Seq<char>,
)
    ensures
        ({
            let s = written(store, WriteView::SaveDevices(devices));
            &&& devices_in(s) == devices
            &&& metrics_in(s, other) == metrics_in(store, other)
            &&& history_in(s, other) == history_in(store, other)
        }),
        ({
            let s = written(store, WriteView::SaveMetrics(m));
            &&& metrics_in(s, m.device_id) == m
            &&& other != m.device_id ==> metrics_in(s, other) == metrics_in(store, other)
            &&& devices_in(s) == devices_in(store)
            &&& history_in(s, other) == history_in(store, other)
        }),
        ({
            let s = written(store, WriteView::SaveHistory(h));
            &&& history_in(s, h.device_id) == h.history
            &&& other != h.device_id ==> history_in(s, other) == history_in(store, other)
            &&& devices_in(s) == devices_in(store)
            &&& metrics_in(s, other) == metrics_in(store, other)
        }),
{
    keys_never_collide(other, m.device_id);
    keys_never_collide(m.device_id, other);
    keys_never_collide(other, h.device_id);
    keys_never_collide(h.device_id, other);
}

/// All metrics in the store lie under the key of the device they belong to.
pub open spec fn well_filed(store: Map<Seq<char>, Stored>) -> bool {
    forall|device_id: Seq<char>| (#[trigger] metrics_in(store, device_id)).device_id == device_id
}

/// An empty store is well filed, and every write keeps it so.
pub proof fn writes_keep_the_store_well_filed(store: Map<Seq<char>, Stored>, w: WriteView)
    requires
        well_filed(store),
    ensures
        well_filed(Map::<Seq<char>, Stored>::empty()),
        well_filed(written(store, w)),
{
    let after = written(store, w);
    assert forall|device_id: Seq<char>|
        (#[trigger] metrics_in(after, device_id)).device_id == device_id by {
        let before = metrics_in(store, device_id);
        assert(before.device_id == device_id);
        if let WriteView::SaveMetrics(m) = w {
            keys_never_collide(device_id, m.device_id);
        }
        if let WriteView::SaveHistory(h) = w {
            keys_never_collide(device_id, h.device_id);
        }
        keys_never_collide(device_id, device_id);
    }
}

/// What was deleted reads as it does for a device that was never checked, and all else stays.
pub proof fn deleted_reads_as_new(
    store: Map<Seq<char>, Stored>,
    device_id: Seq<char>,
    other: Seq<char>,
)
    ensures
        ({
            let s = written(store, WriteView::Delete(metrics_key_text(device_id)));
            &&& metrics_in(s, device_id) == metrics::fresh(device_id)
            &&& other != device_id ==> metrics_in(s, other) == metrics_in(store, other)
            &&& history_in(s, other) == history_in(store, other)
            &&& devices_in(s) == devices_in(store)
        }),
        ({
            let s = written(store, WriteView::Delete(history_key_text(device_id)));
            &&& history_in(s, device_id) == Seq::<CheckView>::empty()
            &&& other != device_id ==> history_in(s, other) == history_in(store, other)
            &&& metrics_in(s, other) == metrics_in(store, other)
            &&& devices_in(s) == devices_in(store)
        }),
{
    keys_never_collide(other, device_id);
    keys_never_collide(device_id, other);
}

/// The histories of some devices in a store.
pub open spec fn histories_in(store: Map<Seq<char>, Stored>, ids: Seq<Seq<char>>) -> Seq<
    DeviceHistoryView,
> {
    ids.map_values(
        |id: Seq<char>| DeviceHistoryView { device_id: id, history: history_in(store, id) },
    )
}

/// The writes that save these histories.
pub open spec fn saves(histories: Seq<DeviceHistoryView>) -> Seq<WriteView> {
    histories.map_values(|h: DeviceHistoryView| WriteView::SaveHistory(h))
}

/// When all histories are pruned and those that changed are saved, every one of the devices is
/// left with its pruned history, and everything else stays as it was.
pub proof fn pruning_reaches_every_device(
    store: Map<Seq<char>, Stored>,
    ids: Seq<Seq<char>>,
    now_secs: u64,
    device_id: Seq<char>,
)
    ensures
        ({
            let after = all_written(
                store,
                saves(history::rewritten(histories_in(store, ids), now_secs)),
            );
            &&& history_in(after, device_id) == if ids.contains(device_id) {
                history::pruned(history_in(store, device_id), now_secs)
            } else {
                history_in(store, device_id)
            }
            &&& metrics_in(after, device_id) == metrics_in(store, device_id)
            &&& devices_in(after) == devices_in(store)
        }),
    decreases ids.len(),
{
    let hs = histories_in(store, ids);
    let writes = saves(history::rewritten(hs, now_secs));
    if ids.len() == 0 {
        reveal(Seq::filter);
        assert(history::rewritten(hs, now_secs) =~= Seq::<DeviceHistoryView>::empty());
        assert(writes =~= Seq::<WriteView>::empty());
    } else {
        let rest = ids.drop_last();
        let id = ids.last();
        let h = DeviceHistoryView { device_id: id, history: history_in(store, id) };
        pruning_reaches_every_device(store, rest, now_secs, device_id);
        assert(hs =~= histories_in(store, rest).push(h));
        history::rewritten_step(histories_in(store, rest), h, now_secs);
        let before = saves(history::rewritten(histories_in(store, rest), now_secs));
        assert(ids.contains(device_id) <==> rest.contains(device_id) || device_id == id) by {
            assert(ids[ids.len() - 1] == id);
            if rest.contains(device_id) {
                let i = choose|i: int| 0 <= i < rest.len() && rest[i] == device_id;
                assert(ids[i] == device_id);
            }
            if ids.contains(device_id) {
                let i = choose|i: int| 0 <= i < ids.len() && ids[i] == device_id;
                if i < ids.len() - 1 {
                    assert(rest[i] == device_id);
                }
            }
        }
        if history::outdated(now_secs)(h) {
            let saved = history::pruned_history(now_secs)(h);
            assert(writes =~= before.push(WriteView::SaveHistory(saved)));
            assert(writes.drop_last() =~= before);
            reads_give_back_writes(
                all_written(store, before),
                Map::empty(),
                metrics::fresh(id),
                saved,
                device_id,
            );
        } else {
            history::unchanged_by_pruning(h, now_secs);
            assert(writes =~= before);
        }
    }
}

/// When the histories of some devices, such as all that are registered, have been pruned, none of
/// them holds a check that is more than 24 hours old, and pruning them again at the same time
/// writes nothing and leaves the store as it is.
pub proof fn pruning_again_writes_nothing(
    store: Map<Seq<char>, Stored>,
    ids: Seq<Seq<char>>,
    now_secs: u64,
)
    ensures
        ({
            let after = all_written(
                store,
                saves(history::rewritten(histories_in(store, ids), now_secs)),
            );
            let again = saves(history::rewritten(histories_in(after, ids), now_secs));
            &&& devices_in(after) == devices_in(store)
            &&& forall|id: Seq<char>, c: CheckView|
                ids.contains(id) && #[trigger] history_in(after, id).contains(c) ==> c.epoch_secs
                    >= history::window_start(now_secs)
            &&& device::is_key_order(ids, devices_in(store)) ==> forall|
                id: Seq<char>,
                c: CheckView,
            |
                devices_in(after).contains_key(id) && #[trigger] history_in(after, id).contains(c)
                    ==> c.epoch_secs >= history::window_start(now_secs)
            &&& history::rewritten(histories_in(after, ids), now_secs).len() == 0
            &&& again.len() == 0
            &&& all_written(after, again) == after
        }),
{
    let after = all_written(store, saves(history::rewritten(histories_in(store, ids), now_secs)));
    let hs = histories_in(after, ids);
    pruning_reaches_every_device(store, ids, now_secs, KV_DEVICES_KEY@);
    assert forall|id: Seq<char>, c: CheckView|
        ids.contains(id) && #[trigger] history_in(after, id).contains(c) implies c.epoch_secs
        >= history::window_start(now_secs) by {
        pruning_reaches_every_device(store, ids, now_secs, id);
        history::pruning_keeps_the_window(history_in(store, id), now_secs);
    }
    assert forall|i: int| 0 <= i < hs.len() implies !history::outdated(now_secs)(
        #[trigger] hs[i],
    ) by {
        let id = ids[i];
        assert(ids.contains(id));
        pruning_reaches_every_device(store, ids, now_secs, id);
        history::pruning_keeps_the_window(history_in(store, id), now_secs);
    }
    history::nothing_rewritten(hs, now_secs);
    if device::is_key_order(ids, devices_in(store)) {
        assert forall|id: Seq<char>, c: CheckView|
            devices_in(after).contains_key(id) && #[trigger] history_in(after, id).contains(
                c,
            ) implies c.epoch_secs >= history::window_start(now_secs) by {
            assert(ids.contains(id));
        }
    }
}

/// The register has a key of its own, and the metrics and the history of a device have keys that
/// end in its id.
pub proof fn keys_name_their_device(device_id: Seq<char>)
    ensures
        KV_BACKEND@ == "in_memory"@,
        KV_DEVICES_KEY@ == "uptime:devices"@,
        metrics_key_text(device_id) == "uptime:metrics:"@ + device_id,
        history_key_text(device_id) == "uptime:history:"@ + device_id,
{
}

/// In contracts writes have the content that they have in code, one by one.
pub proof fn writes_stand_for_their_content(w: Write, writes: Seq<Write>)
    ensures
        w matches Write::SaveDevices(devices) ==> w@ == WriteView::SaveDevices(devices@),
        w matches Write::SaveMetrics(m) ==> w@ == WriteView::SaveMetrics(m@),
        w matches Write::SaveHistory(h) ==> w@ == WriteView::SaveHistory(h@),
        w matches Write::Delete(key) ==> w@ == WriteView::Delete(key@),
        write_views(writes).len() == writes.len(),
        forall|i: int| 0 <= i < writes.len() ==> #[trigger] write_views(writes)[i] == writes[i]@,
{
}

/// A write changes what is under its key and nothing else: a save puts there what it saves, and a
/// deletion leaves nothing there.
pub proof fn writes_change_their_key_only(
    store: Map<Seq<char>, Stored>,
    w: WriteView,
    key: Seq<char>,
)
    ensures
        w is SaveDevices ==> written_key(w) == "uptime:devices"@,
        w matches WriteView::SaveMetrics(m) ==> written_key(w) == "uptime:metrics:"@ + m.device_id,
        w matches WriteView::SaveHistory(h) ==> written_key(w) == "uptime:history:"@ + h.device_id,
        w matches WriteView::Delete(k) ==> written_key(w) == k,
        key != written_key(w) ==> (written(store, w).contains_key(key) <==> store.contains_key(
            key,
        )),
        key != written_key(w) && store.contains_key(key) ==> written(store, w)[key] == store[key],
        w is Delete <==> !written(store, w).contains_key(written_key(w)),
        w matches WriteView::SaveDevices(devices) ==> written(store, w)[written_key(w)]
            == Stored::Devices(devices),
        w matches WriteView::SaveMetrics(m) ==> written(store, w)[written_key(w)]
            == Stored::Metrics(m),
        w matches WriteView::SaveHistory(h) ==> written(store, w)[written_key(w)]
            == Stored::History(h.history),
{
}

/// Writes take effect one after the other.
pub proof fn writes_are_made_in_turn(
    store: Map<Seq<char>, Stored>,
    before: Seq<WriteView>,
    after: Seq<WriteView>,
    w: WriteView,
)
    ensures
        all_written(store, Seq::empty()) == store,
        all_written(store, seq![w]) == written(store, w),
        all_written(store, before + after) == all_written(all_written(store, before), after),
    decreases after.len(),
{
    one_write(store, seq![w]);
    if after.len() == 0 {
        assert(before + after =~= before);
    } else {
        assert((before + after).drop_last() =~= before + after.drop_last());
        writes_are_made_in_turn(store, before, after.drop_last(), w);
    }
}

/// From an empty store no devices are read, no history, and the metrics of devices that were never
/// checked.
pub proof fn an_empty_store_knows_nothing(device_id: Seq<char>)
    ensures
        ({
            let store = Map::<Seq<char>, Stored>::empty();
            &&& devices_in(store) == Map::<Seq<char>, DeviceView>::empty()
            &&& metrics_in(store, device_id) == metrics::fresh(device_id)
            &&& history_in(store, device_id).len() == 0
        }),
{
}

/// The histories of some devices in a store are those of the devices one by one, and each of the
/// writes that save histories saves one of them.
pub proof fn histories_are_read_and_saved_one_by_one(
    store: Map<Seq<char>, Stored>,
    ids: Seq<Seq<char>>,
    histories: Seq<DeviceHistoryView>,
    i: int,
)
    ensures
        histories_in(store, ids).len() == ids.len(),
        0 <= i < ids.len() ==> histories_in(store, ids)[i].device_id == ids[i] && histories_in(
            store,
            ids,
        )[i].history == history_in(store, ids[i]),
        saves(histories).len() == histories.len(),
        0 <= i < histories.len() ==> saves(histories)[i] == WriteView::SaveHistory(histories[i]),
{
}

} // verus!
