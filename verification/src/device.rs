//! Devices and the register of the devices that are watched.

use vstd::prelude::*;
use vstd::string::*;

use crate::text;

verus! {

/// A network device to monitor.
#[derive(Debug)]
pub struct Device {
    /// Unique identifier (slug-style, e.g. "living-room-router").
    pub id: String,
    /// Human-readable label.
    pub name: String,
    /// Full URL to poll, e.g. `http://192.168.1.1/status`.
    pub url: String,
    /// Expected HTTP status code that means "up" (default 200).
    pub expected_status: u16,
}

/// What a [`Device`] is, in terms of its texts.
pub struct DeviceView {
    pub id: Seq<char>,
    pub name: Seq<char>,
    pub url: Seq<char>,
    pub expected_status: u16,
}

impl View for Device {
    type V = DeviceView;

    open spec fn view(&self) -> DeviceView {
        DeviceView {
            id: self.id@,
            name: self.name@,
            url: self.url@,
            expected_status: self.expected_status,
        }
    }
}

impl Clone for Device {
    fn clone(&self) -> (r: Self)
        ensures
            r == *self,
    {
        Device {
            id: self.id.clone(),
            name: self.name.clone(),
            url: self.url.clone(),
            expected_status: self.expected_status,
        }
    }
}

/// The body accepted when registering a new device.
#[derive(Debug)]
pub struct CreateDeviceRequest {
    pub id: String,
    pub name: String,
    pub url: String,
    pub expected_status: u16,
}

/// The status that means "up" where a device names none.
pub fn default_expected_status() -> (r: u16)
    ensures
        r == 200,
{
    200
}

/// A device under the key it is registered by.
struct Entry {
    key: String,
    device: Device,
}

impl Clone for Entry {
    fn clone(&self) -> (r: Self)
        ensures
            r == *self,
    {
        Entry { key: self.key.clone(), device: self.device.clone() }
    }
}

/// The registered devices, each under its key, in the order of the keys.
pub struct DeviceMap {
    entries: Vec<Entry>,
}

/// The keys of `entries`, in the order of the entries.
spec fn keys_of(entries: Seq<Entry>) -> Seq<Seq<char>> {
    entries.map_values(|e: Entry| e.key@)
}

/// The texts come strictly one after the other.
pub open spec fn ascending(keys: Seq<Seq<char>>) -> bool {
    forall|i: int, j: int| 0 <= i < j < keys.len() ==> text::text_before(keys[i], keys[j])
}

/// The devices of `entries` by key.
spec fn map_of(entries: Seq<Entry>) -> Map<Seq<char>, DeviceView>
    decreases entries.len(),
{
    if entries.len() == 0 {
        Map::empty()
    } else {
        map_of(entries.drop_last()).insert(entries.last().key@, entries.last().device@)
    }
}

impl View for DeviceMap {
    type V = Map<Seq<char>, DeviceView>;

    closed spec fn view(&self) -> Map<Seq<char>, DeviceView> {
        map_of(self.entries@)
    }
}

proof fn map_of_domain(entries: Seq<Entry>, key: Seq<char>)
    ensures
        map_of(entries).contains_key(key) <==> exists|i: int|
            0 <= i < entries.len() && #[trigger] entries[i].key@ == key,
    decreases entries.len(),
{
    if entries.len() > 0 {
        map_of_domain(entries.drop_last(), key);
        if exists|i: int| 0 <= i < entries.len() && #[trigger] entries[i].key@ == key {
            let i = choose|i: int| 0 <= i < entries.len() && #[trigger] entries[i].key@ == key;
            if i < entries.len() - 1 {
                assert(entries.drop_last()[i].key@ == key);
            }
        }
        if map_of(entries.drop_last()).contains_key(key) {
            let i = choose|i: int|
                0 <= i < entries.len() - 1 && #[trigger] entries.drop_last()[i].key@ == key;
            assert(entries[i].key@ == key);
        }
        if entries.last().key@ == key {
            assert(entries[entries.len() - 1].key@ == key);
        }
    }
}

proof fn ascending_distinct(keys: Seq<Seq<char>>, i: int, j: int)
    requires
        ascending(keys),
        0 <= i < keys.len(),
        0 <= j < keys.len(),
        keys[i] == keys[j],
    ensures
        i == j,
{
    text::text_before_irreflexive(keys[i]);
}

proof fn map_of_value(entries: Seq<Entry>, i: int)
    requires
        ascending(keys_of(entries)),
        0 <= i < entries.len(),
    ensures
        map_of(entries).contains_key(entries[i].key@),
        map_of(entries)[entries[i].key@] == entries[i].device@,
    decreases entries.len(),
{
    if i < entries.len() - 1 {
        assert(keys_of(entries.drop_last()) == keys_of(entries).drop_last());
        map_of_value(entries.drop_last(), i);
        if entries[i].key@ == entries.last().key@ {
            assert(keys_of(entries)[i] == keys_of(entries)[entries.len() - 1]);
            ascending_distinct(keys_of(entries), i, entries.len() - 1);
        }
    }
}

/// `keys` are the keys of `m` in ascending order.
pub open spec fn is_key_order(keys: Seq<Seq<char>>, m: Map<Seq<char>, DeviceView>) -> bool {
    &&& ascending(keys)
    &&& forall|k: Seq<char>| #[trigger] keys.contains(k) <==> m.contains_key(k)
}

/// The keys of `m` in ascending order.
pub open spec fn key_order(m: Map<Seq<char>, DeviceView>) -> Seq<Seq<char>> {
    choose|keys: Seq<Seq<char>>| is_key_order(keys, m)
}

proof fn ascending_unique(a: Seq<Seq<char>>, b: Seq<Seq<char>>)
    requires
        ascending(a),
        ascending(b),
        forall|k: Seq<char>| #[trigger] a.contains(k) <==> b.contains(k),
    ensures
        a == b,
    decreases a.len(),
{
    if a.len() == 0 {
        if b.len() > 0 {
            assert(b.contains(b[0]));
            assert(a.contains(b[0]));
        }
        assert(a == b);
    } else {
        assert(a.contains(a[0]) && b.contains(a[0]));
        let x = a.last();
        let y = b.last();
        assert(a.contains(x) && b.contains(y)) by {
            assert(a[a.len() - 1] == x);
            assert(b[b.len() - 1] == y);
        }
        assert(b.contains(x) && a.contains(y));
        let i = choose|i: int| 0 <= i < b.len() && b[i] == x;
        let j = choose|j: int| 0 <= j < a.len() && a[j] == y;
        if x != y {
            assert(text::text_before(b[i], b[b.len() - 1]));
            assert(text::text_before(a[j], a[a.len() - 1]));
            text::text_before_transitive(x, y, x);
            text::text_before_irreflexive(x);
        }
        let a0 = a.drop_last();
        let b0 = b.drop_last();
        assert forall|k: Seq<char>| #[trigger] a0.contains(k) implies b0.contains(k) by {
            let p = choose|p: int| 0 <= p < a0.len() && a0[p] == k;
            assert(a[p] == k);
            assert(a.contains(k));
            let q = choose|q: int| 0 <= q < b.len() && b[q] == k;
            if q == b.len() - 1 {
                ascending_distinct(a, p, a.len() - 1);
            }
            assert(b0[q] == k);
        }
        assert forall|k: Seq<char>| #[trigger] b0.contains(k) implies a0.contains(k) by {
            let p = choose|p: int| 0 <= p < b0.len() && b0[p] == k;
            assert(b[p] == k);
            assert(b.contains(k));
            assert(a.contains(k));
            let q = choose|q: int| 0 <= q < a.len() && a[q] == k;
            if q == a.len() - 1 {
                ascending_distinct(b, p, b.len() - 1);
            }
            assert(a0[q] == k);
        }
        ascending_unique(a0, b0);
        assert(a == a0.push(x));
        assert(b == b0.push(y));
    }
}

/// A register has at most one order of its keys.
pub proof fn key_order_unique(keys: Seq<Seq<char>>, m: Map<Seq<char>, DeviceView>)
    requires
        is_key_order(keys, m),
    ensures
        key_order(m) == keys,
{
    let other = key_order(m);
    assert forall|k: Seq<char>| #[trigger] keys.contains(k) <==> other.contains(k) by {
        assert(keys.contains(k) <==> m.contains_key(k));
        assert(other.contains(k) <==> m.contains_key(k));
    }
    ascending_unique(keys, other);
}

/// A text that is not among ascending texts has a place among them.
proof fn place_among(keys: Seq<Seq<char>>, key: Seq<char>) -> (at: int)
    requires
        ascending(keys),
        !keys.contains(key),
    ensures
        0 <= at <= keys.len(),
        ascending(keys.insert(at, key)),
    decreases keys.len(),
{
    if keys.len() == 0 {
        0
    } else {
        let last = keys.last();
        let rest = keys.drop_last();
        assert(keys.contains(last)) by {
            assert(keys[keys.len() - 1] == last);
        }
        text::text_before_total(last, key);
        if text::text_before(last, key) {
            let all = keys.insert(keys.len() as int, key);
            assert forall|i: int, j: int| 0 <= i < j < all.len() implies text::text_before(
                all[i],
                all[j],
            ) by {
                if j == keys.len() && i < keys.len() - 1 {
                    text::text_before_transitive(keys[i], last, key);
                }
            }
            keys.len() as int
        } else {
            assert(!rest.contains(key)) by {
                if rest.contains(key) {
                    let i = choose|i: int| 0 <= i < rest.len() && rest[i] == key;
                    assert(keys[i] == key);
                }
            }
            let at = place_among(rest, key);
            let all = keys.insert(at, key);
            assert(all =~= rest.insert(at, key).push(last));
            assert forall|i: int, j: int| 0 <= i < j < all.len() implies text::text_before(
                all[i],
                all[j],
            ) by {
                if j < all.len() - 1 {
                    assert(text::text_before(rest.insert(at, key)[i], rest.insert(at, key)[j]));
                } else if i < at {
                    assert(all[i] == keys[i]);
                } else if i > at {
                    assert(all[i] == keys[i - 1]);
                }
            }
            at
        }
    }
}

/// Every register has an order of its keys.
pub proof fn every_register_has_a_key_order(m: Map<Seq<char>, DeviceView>)
    requires
        m.dom().finite(),
    ensures
        is_key_order(key_order(m), m),
    decreases m.dom().len(),
{
    if m.dom().len() == 0 {
        assert(m.dom() =~= Set::empty());
        let keys = Seq::<Seq<char>>::empty();
        assert forall|k: Seq<char>| #[trigger] keys.contains(k) <==> m.contains_key(k) by {
            assert(!m.dom().contains(k));
        }
        assert(is_key_order(keys, m));
    } else {
        let key = m.dom().choose();
        let rest = m.remove(key);
        every_register_has_a_key_order(rest);
        let before = key_order(rest);
        assert(!before.contains(key));
        let at = place_among(before, key);
        let keys = before.insert(at, key);
        assert forall|k: Seq<char>| #[trigger] keys.contains(k) <==> m.contains_key(k) by {
            assert(before.contains(k) <==> rest.contains_key(k));
            if before.contains(k) {
                let i = choose|i: int| 0 <= i < before.len() && before[i] == k;
                assert(keys[if i < at {
                    i
                } else {
                    i + 1
                }] == k);
            }
            if k == key {
                assert(keys[at] == k);
            }
            if keys.contains(k) && k != key {
                let i = choose|i: int| 0 <= i < keys.len() && keys[i] == k;
                assert(before[if i < at {
                    i
                } else {
                    i - 1
                }] == k);
            }
        }
        assert(is_key_order(keys, m));
    }
}

proof fn entries_in_order(entries: Seq<Entry>)
    requires
        ascending(keys_of(entries)),
    ensures
        is_key_order(keys_of(entries), map_of(entries)),
        key_order(map_of(entries)) == keys_of(entries),
{
    let keys = keys_of(entries);
    assert forall|k: Seq<char>| #[trigger]
        keys.contains(k) <==> map_of(entries).contains_key(k) by {
        map_of_domain(entries, k);
        if keys.contains(k) {
            let i = choose|i: int| 0 <= i < keys.len() && keys[i] == k;
            assert(entries[i].key@ == k);
        }
        if map_of(entries).contains_key(k) {
            let i = choose|i: int| 0 <= i < entries.len() && #[trigger] entries[i].key@ == k;
            assert(keys[i] == k);
        }
    }
    key_order_unique(keys, map_of(entries));
}

/// Two registers with the same entries by key are the same map.
proof fn map_of_insert(before: Seq<Entry>, after: Seq<Entry>, e: Entry)
    requires
        ascending(keys_of(before)),
        ascending(keys_of(after)),
        exists|i: int| 0 <= i < after.len() && after[i] == e,
        forall|i: int|
            0 <= i < after.len() ==> after[i] == e || before.contains(#[trigger] after[i]),
        forall|i: int|
            0 <= i < before.len() ==> #[trigger] before[i].key@ == e.key@ || after.contains(
                before[i],
            ),
    ensures
        map_of(after) == map_of(before).insert(e.key@, e.device@),
{
    let a = map_of(after);
    let b = map_of(before).insert(e.key@, e.device@);
    let at = choose|i: int| 0 <= i < after.len() && after[i] == e;
    map_of_value(after, at);
    assert forall|k: Seq<char>| a.contains_key(k) implies #[trigger] b.contains_key(k) && a[k]
        == b[k] by {
        map_of_domain(after, k);
        let i = choose|i: int| 0 <= i < after.len() && #[trigger] after[i].key@ == k;
        map_of_value(after, i);
        if k != e.key@ {
            let j = choose|j: int| 0 <= j < before.len() && before[j] == after[i];
            map_of_value(before, j);
        }
    }
    assert forall|k: Seq<char>| b.contains_key(k) implies #[trigger] a.contains_key(k) by {
        if k != e.key@ {
            map_of_domain(before, k);
            let i = choose|i: int| 0 <= i < before.len() && #[trigger] before[i].key@ == k;
            let j = choose|j: int| 0 <= j < after.len() && after[j] == before[i];
            map_of_value(after, j);
        }
    }
    assert(a =~= b);
}

proof fn map_of_remove(before: Seq<Entry>, at: int)
    requires
        ascending(keys_of(before)),
        0 <= at < before.len(),
    ensures
        ascending(keys_of(before.remove(at))),
        map_of(before.remove(at)) == map_of(before).remove(before[at].key@),
{
    let after = before.remove(at);
    let ka = keys_of(after);
    let kb = keys_of(before);
    assert forall|i: int, j: int| 0 <= i < j < ka.len() implies text::text_before(
        ka[i],
        ka[j],
    ) by {
        let p = if i < at { i } else { i + 1 };
        let q = if j < at { j } else { j + 1 };
        assert(ka[i] == kb[p] && ka[j] == kb[q]);
    }
    let a = map_of(after);
    let b = map_of(before).remove(before[at].key@);
    assert forall|k: Seq<char>| a.contains_key(k) implies #[trigger] b.contains_key(k) && a[k]
        == b[k] by {
        map_of_domain(after, k);
        let i = choose|i: int| 0 <= i < after.len() && #[trigger] after[i].key@ == k;
        map_of_value(after, i);
        let p = if i < at { i } else { i + 1 };
        assert(after[i] == before[p]);
        map_of_value(before, p);
        if k == before[at].key@ {
            assert(kb[p] == kb[at]);
            ascending_distinct(kb, p, at);
        }
    }
    assert forall|k: Seq<char>| b.contains_key(k) implies #[trigger] a.contains_key(k) by {
        map_of_domain(before, k);
        let i = choose|i: int| 0 <= i < before.len() && #[trigger] before[i].key@ == k;
        let p = if i < at { i } else { i - 1 };
        assert(after[p] == before[i]);
        map_of_value(after, p);
    }
    assert(a =~= b);
}

impl DeviceMap {
    #[verifier::type_invariant]
    pub(crate) closed spec fn wf(self) -> bool {
        ascending(keys_of(self.entries@))
    }

    /// The keys of a register have an order.
    pub(crate) proof fn has_key_order(self)
        requires
            self.wf(),
        ensures
            is_key_order(key_order(self@), self@),
    {
        entries_in_order(self.entries@);
    }

    /// A register without devices.
    pub fn new() -> (r: DeviceMap)
        ensures
            r@ == Map::<Seq<char>, DeviceView>::empty(),
    {
        DeviceMap { entries: Vec::new() }
    }

    /// The position of the first entry whose key does not come before `key`.
    fn position(&self, key: &str) -> (r: usize)
        ensures
            r <= self.entries@.len(),
            forall|i: int|
                0 <= i < r ==> text::text_before(#[trigger] self.entries@[i].key@, key@),
            r < self.entries@.len() ==> !text::text_before(self.entries@[r as int].key@, key@),
    {
        let mut i: usize = 0;
        while i < self.entries.len() && text::comes_before(self.entries[i].key.as_str(), key)
            invariant
                i <= self.entries@.len(),
                forall|j: int|
                    0 <= j < i ==> text::text_before(#[trigger] self.entries@[j].key@, key@),
            decreases self.entries@.len() - i,
        {
            i = i + 1;
        }
        i
    }

    /// The position of the entry of `key`, if there is one.
    fn find(&self, key: &str) -> (r: Option<usize>)
        ensures
            self@.contains_key(key@) <==> r is Some,
            r matches Some(i) ==> i < self.entries@.len() && self.entries@[i as int].key@ == key@
                && self@[key@] == self.entries@[i as int].device@,
    {
        proof {
            use_type_invariant(self);
            map_of_domain(self.entries@, key@);
        }
        let i = self.position(key);
        if i < self.entries.len() && text::same_text(self.entries[i].key.as_str(), key) {
            proof {
                map_of_value(self.entries@, i as int);
            }
            Some(i)
        } else {
            proof {
                if self@.contains_key(key@) {
                    let j = choose|j: int|
                        0 <= j < self.entries@.len() && #[trigger] self.entries@[j].key@ == key@;
                    let keys = keys_of(self.entries@);
                    if j < i {
                        text::text_before_irreflexive(key@);
                    } else if i < j {
                        assert(text::text_before(keys[i as int], keys[j]));
                    }
                }
            }
            None
        }
    }

    /// The device under `key`.
    pub fn get(&self, key: &str) -> (r: Option<&Device>)
        ensures
            self@.contains_key(key@) <==> r is Some,
            r matches Some(d) ==> d@ == self@[key@],
    {
        match self.find(key) {
            Some(i) => Some(&self.entries[i].device),
            None => None,
        }
    }

    /// Whether there is a device under `key`.
    pub fn contains_key(&self, key: &str) -> (r: bool)
        ensures
            r == self@.contains_key(key@),
    {
        self.find(key).is_some()
    }

    /// Puts `device` under `key`, in the place of a device that is there already.
    pub fn insert(&mut self, key: String, device: Device)
        ensures
            final(self)@ == old(self)@.insert(key@, device@),
    {
        proof {
            use_type_invariant(&*self);
        }
        let found = self.find(key.as_str());
        let at = self.position(key.as_str());
        let e = Entry { key, device };
        let mut entries: Vec<Entry> = Vec::new();
        let ghost before = self.entries@;
        std::mem::swap(&mut entries, &mut self.entries);
        match found {
            Some(i) => {
                entries[i] = e;
                proof {
                    let after = entries@;
                    assert(keys_of(after) == keys_of(before));
                    assert(after[i as int] == e);
                    assert forall|j: int| 0 <= j < after.len() implies after[j] == e
                        || before.contains(#[trigger] after[j]) by {
                        if j != i {
                            assert(after[j] == before[j]);
                        }
                    }
                    assert forall|j: int| 0 <= j < before.len() implies #[trigger] before[j].key@
                        == e.key@ || after.contains(before[j]) by {
                        if j != i {
                            assert(after[j] == before[j]);
                        }
                    }
                    map_of_insert(before, after, e);
                }
            },
            None => {
                entries.insert(at, e);
                proof {
                    let after = entries@;
                    insert_keeps_order(before, at as int, e);
                    assert(after[at as int] == e);
                    assert forall|j: int| 0 <= j < after.len() implies after[j] == e
                        || before.contains(#[trigger] after[j]) by {
                        if j < at {
                            assert(after[j] == before[j]);
                        } else if j > at {
                            assert(after[j] == before[j - 1]);
                        }
                    }
                    assert forall|j: int| 0 <= j < before.len() implies #[trigger] before[j].key@
                        == e.key@ || after.contains(before[j]) by {
                        if j < at {
                            assert(after[j] == before[j]);
                        } else {
                            assert(after[j + 1] == before[j]);
                        }
                    }
                    map_of_insert(before, after, e);
                }
            },
        }
        self.entries = entries;
    }

    /// Takes the device under `key` out; tells whether there was one.
    pub fn remove(&mut self, key: &str) -> (r: bool)
        ensures
            r == old(self)@.contains_key(key@),
            final(self)@ == old(self)@.remove(key@),
    {
        proof {
            use_type_invariant(&*self);
        }
        match self.find(key) {
            Some(i) => {
                let mut entries: Vec<Entry> = Vec::new();
                std::mem::swap(&mut entries, &mut self.entries);
                proof {
                    map_of_remove(entries@, i as int);
                }
                entries.remove(i);
                self.entries = entries;
                true
            },
            None => {
                assert(self@.remove(key@) =~= self@);
                false
            },
        }
    }

    /// The keys in ascending order.
    pub fn keys(&self) -> (r: Vec<String>)
        ensures
            text::texts(r@) == key_order(self@),
            is_key_order(key_order(self@), self@),
    {
        let mut r: Vec<String> = Vec::new();
        let mut i: usize = 0;
        while i < self.entries.len()
            invariant
                i <= self.entries@.len(),
                text::texts(r@) == keys_of(self.entries@).take(i as int),
            decreases self.entries@.len() - i,
        {
            let ghost done = text::texts(r@);
            r.push(self.entries[i].key.clone());
            assert(text::texts(r@) =~= done.push(self.entries@[i as int].key@));
            i = i + 1;
        }
        proof {
            use_type_invariant(self);
            entries_in_order(self.entries@);
            assert(keys_of(self.entries@).take(i as int) == keys_of(self.entries@));
        }
        r
    }

    /// The devices in the order of their keys.
    pub fn values(&self) -> (r: Vec<Device>)
        ensures
            device_views(r@) == devices_in_order(self@),
            is_key_order(key_order(self@), self@),
    {
        let mut r: Vec<Device> = Vec::new();
        let mut i: usize = 0;
        proof {
            use_type_invariant(self);
            entries_in_order(self.entries@);
        }
        while i < self.entries.len()
            invariant
                i <= self.entries@.len(),
                ascending(keys_of(self.entries@)),
                key_order(self@) == keys_of(self.entries@),
                device_views(r@) == devices_in_order(self@).take(i as int),
            decreases self.entries@.len() - i,
        {
            let ghost done = device_views(r@);
            r.push(self.entries[i].device.clone());
            proof {
                map_of_value(self.entries@, i as int);
                assert(device_views(r@) =~= done.push(self.entries@[i as int].device@));
                assert(devices_in_order(self@)[i as int] == self.entries@[i as int].device@);
            }
            i = i + 1;
        }
        assert(devices_in_order(self@).take(i as int) == devices_in_order(self@));
        r
    }
}

/// The devices `devices` as they appear in contracts.
pub open spec fn device_views(devices: Seq<Device>) -> Seq<DeviceView> {
    devices.map_values(|d: Device| d@)
}

/// Every device stands under its own id.
pub open spec fn keyed_by_id(m: Map<Seq<char>, DeviceView>) -> bool {
    forall|k: Seq<char>| #[trigger] m.contains_key(k) ==> m[k].id == k
}

/// The devices of `m` in the order of their keys.
pub open spec fn devices_in_order(m: Map<Seq<char>, DeviceView>) -> Seq<DeviceView> {
    key_order(m).map_values(|k: Seq<char>| m[k])
}

proof fn insert_keeps_order(before: Seq<Entry>, at: int, e: Entry)
    requires
        ascending(keys_of(before)),
        0 <= at <= before.len(),
        forall|i: int| 0 <= i < at ==> text::text_before(#[trigger] before[i].key@, e.key@),
        at < before.len() ==> !text::text_before(before[at].key@, e.key@),
        !map_of(before).contains_key(e.key@),
    ensures
        ascending(keys_of(before.insert(at, e))),
{
    let after = before.insert(at, e);
    let ka = keys_of(after);
    let kb = keys_of(before);
    assert forall|i: int, j: int| 0 <= i < j < ka.len() implies text::text_before(
        ka[i],
        ka[j],
    ) by {
        if i == at {
            map_of_domain(before, e.key@);
            assert(before[at].key@ != e.key@);
            text::text_before_total(before[at].key@, e.key@);
            if j > at + 1 {
                assert(ka[j] == kb[j - 1]);
                assert(text::text_before(kb[at], kb[j - 1]));
                text::text_before_transitive(e.key@, kb[at], kb[j - 1]);
            }
        } else if j == at {
            assert(ka[i] == before[i].key@);
        } else {
            let p = if i < at { i } else { i - 1 };
            let q = if j < at { j } else { j - 1 };
            assert(ka[i] == kb[p] && ka[j] == kb[q]);
        }
    }
}

impl Clone for DeviceMap {
    fn clone(&self) -> (r: Self)
        ensures
            r@ == self@,
    {
        proof {
            use_type_invariant(self);
        }
        let entries = self.entries.clone();
        assert(entries@ =~= self.entries@);
        DeviceMap { entries }
    }
}

/// In contracts devices have the fields that they have in code, one by one.
pub proof fn devices_stand_for_their_fields(d: Device, devices: Seq<Device>)
    ensures
        d@.id == d.id@,
        d@.name == d.name@,
        d@.url == d.url@,
        d@.expected_status == d.expected_status,
        device_views(devices).len() == devices.len(),
        forall|i: int|
            0 <= i < devices.len() ==> #[trigger] device_views(devices)[i] == devices[i]@,
{
}

/// In key order every key of a register stands once, each before those that are greater, and the
/// devices stand in the same order as their keys.
pub proof fn key_order_lists_every_key_once(
    m: Map<Seq<char>, DeviceView>,
    keys: Seq<Seq<char>>,
    i: int,
    j: int,
)
    requires
        is_key_order(keys, m),
        0 <= i < keys.len(),
        0 <= j < keys.len(),
    ensures
        forall|k: Seq<char>| #[trigger] m.contains_key(k) <==> keys.contains(k),
        i < j <==> text::text_before(keys[i], keys[j]),
        i == j <==> keys[i] == keys[j],
        devices_in_order(m).len() == keys.len(),
        devices_in_order(m)[i] == m[keys[i]],
{
    key_order_unique(keys, m);
    assert forall|k: Seq<char>| #[trigger] m.contains_key(k) <==> keys.contains(k) by {}
    text::text_before_irreflexive(keys[i]);
    if j < i && text::text_before(keys[i], keys[j]) {
        text::text_before_transitive(keys[i], keys[j], keys[i]);
    }
}

} // verus!
