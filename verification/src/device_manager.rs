//! Device registry / manager: tracks the set of currently open sessions
//! keyed by device identity and drives the connect/disconnect/status-refresh
//! protocol.
//!
//! Every operation is a pure transition on the registry that returns the
//! events to emit; the surrounding process performs the device I/O, feeds
//! outcomes in, and hands the returned events to its sink only after the
//! transition is complete, so no lock is ever held while emitting.

use vstd::prelude::*;

use crate::proto::{spec_battery, spec_charging, spec_parse_payload, DualSenseInputReport};
use crate::session::{DeviceId, DualSense, ReadOutcome};
use crate::transport::{
    DualSenseConnectionType, DS_INPUT_REPORT_BT_SIZE, DS_INPUT_REPORT_USB_SIZE,
};

verus! {

/// A battery reading: capacity on a 0..=15 scale (0 meaning unknown, not an
/// empty battery) and whether the battery is charging.
#[derive(Debug, Clone, Copy, PartialEq, Eq, Structural)]
pub struct BatteryStatus {
    pub capacity: u8,
    pub charging: bool,
}

/// A notification from the registry to its consumer.
#[derive(Debug, PartialEq, Eq)]
pub enum DeviceManagerEvent {
    /// A device was opened and entered the registry.
    Connected(DeviceId, String),
    /// A device left the registry.
    Disconnected(DeviceId),
    /// A fresh battery reading.
    BatteryUpdate(DeviceId, BatteryStatus),
}

/// The spec-level image of an event: the display name as a character
/// sequence.
pub enum ManagerEventModel {
    Connected(DeviceId, Seq<char>),
    Disconnected(DeviceId),
    BatteryUpdate(DeviceId, BatteryStatus),
}

impl View for DeviceManagerEvent {
    type V = ManagerEventModel;

    open spec fn view(&self) -> ManagerEventModel {
        match self {
            DeviceManagerEvent::Connected(id, name) => ManagerEventModel::Connected(*id, name@),
            DeviceManagerEvent::Disconnected(id) => ManagerEventModel::Disconnected(*id),
            DeviceManagerEvent::BatteryUpdate(id, status) => ManagerEventModel::BatteryUpdate(
                *id,
                *status,
            ),
        }
    }
}

/// The spec-level image of a sequence of events.
pub open spec fn events_view(events: Seq<DeviceManagerEvent>) -> Seq<ManagerEventModel> {
    events.map_values(|e: DeviceManagerEvent| e@)
}

/// One registry entry: a live session's identity and its last known
/// transport kind.
#[derive(Debug, Clone, Copy, PartialEq, Eq, Structural)]
pub struct RegistryEntry {
    pub device_id: DeviceId,
    pub connection_type: DualSenseConnectionType,
}

/// True when some entry of `s` carries `id`.
pub open spec fn spec_contains_id(s: Seq<RegistryEntry>, id: DeviceId) -> bool {
    exists|i: int| 0 <= i < s.len() && s[i].device_id == id
}

/// Registry well-formedness: no identity maps to more than one live session.
pub open spec fn spec_wf(s: Seq<RegistryEntry>) -> bool {
    forall|i: int, j: int|
        0 <= i < j < s.len() ==> (#[trigger] s[i].device_id) != (#[trigger] s[j].device_id)
}

/// `s` with every entry carrying `id` removed; order of the rest kept.
pub open spec fn spec_remove_id(s: Seq<RegistryEntry>, id: DeviceId) -> Seq<RegistryEntry>
    decreases s.len(),
{
    if s.len() == 0 {
        Seq::empty()
    } else {
        let rest = spec_remove_id(s.drop_last(), id);
        if s.last().device_id == id {
            rest
        } else {
            rest.push(s.last())
        }
    }
}

/// `s` with the transport kind of every entry carrying `id` set to `kind`.
pub open spec fn spec_set_kind(
    s: Seq<RegistryEntry>,
    id: DeviceId,
    kind: DualSenseConnectionType,
) -> Seq<RegistryEntry> {
    Seq::new(
        s.len(),
        |i: int|
            if s[i].device_id == id {
                RegistryEntry { device_id: id, connection_type: kind }
            } else {
                s[i]
            },
    )
}

/// The transition taken on a successful open: a no-op when the identity is
/// already live (opening is idempotent), else the new entry is appended and
/// one `Connected` event carries the device's display name.
pub open spec fn spec_insert(s: Seq<RegistryEntry>, device: DualSense) -> (
    Seq<RegistryEntry>,
    Seq<ManagerEventModel>,
) {
    if spec_contains_id(s, device.device_id) {
        (s, Seq::empty())
    } else {
        (
            s.push(
                RegistryEntry {
                    device_id: device.device_id,
                    connection_type: device.connection_type,
                },
            ),
            seq![ManagerEventModel::Connected(device.device_id, device.spec_name())],
        )
    }
}

/// The transition taken on a disconnect notice: the identity leaves the
/// registry and exactly one `Disconnected` event is emitted, whether or not
/// a session existed (defensive removal).
pub open spec fn spec_close(s: Seq<RegistryEntry>, id: DeviceId) -> (
    Seq<RegistryEntry>,
    Seq<ManagerEventModel>,
) {
    (spec_remove_id(s, id), seq![ManagerEventModel::Disconnected(id)])
}

/// The battery reading carried by a report whose payload starts at `off`:
/// capacity nibble and charging flag of the status byte.
pub open spec fn spec_battery_reading(data: Seq<u8>, off: int) -> BatteryStatus {
    let status = spec_parse_payload(data, off).status;
    BatteryStatus { capacity: spec_battery(status).0, charging: spec_charging(status) }
}

/// The transition taken on one read outcome for the session `id`
/// (`None` stands for a read timeout).
///
/// An identity that is no longer live is a no-op: a concurrent disconnect
/// may have removed it between the snapshot and the read. A timeout or a
/// zero-length read closes the session and emits exactly one `Disconnected`.
/// A recognized length re-classifies the transport, updates the cached kind
/// and emits one `BatteryUpdate`. Any other length is swallowed: a malformed
/// report fails that read alone.
pub open spec fn spec_update_device(
    s: Seq<RegistryEntry>,
    id: DeviceId,
    outcome: Option<Seq<u8>>,
) -> (Seq<RegistryEntry>, Seq<ManagerEventModel>) {
    if !spec_contains_id(s, id) {
        (s, Seq::empty())
    } else {
        match outcome {
            Option::None => spec_close(s, id),
            Option::Some(data) => {
                if data.len() == 0 {
                    spec_close(s, id)
                } else if data.len() == DS_INPUT_REPORT_USB_SIZE {
                    (
                        spec_set_kind(s, id, DualSenseConnectionType::USB),
                        seq![ManagerEventModel::BatteryUpdate(id, spec_battery_reading(data, 1))],
                    )
                } else if data.len() == DS_INPUT_REPORT_BT_SIZE {
                    (
                        spec_set_kind(s, id, DualSenseConnectionType::BT),
                        seq![ManagerEventModel::BatteryUpdate(id, spec_battery_reading(data, 2))],
                    )
                } else {
                    (s, Seq::empty())
                }
            },
        }
    }
}

/// The transition taken by a bulk open: each successfully opened device is
/// inserted in turn, and the `Connected` events are concatenated in order.
pub open spec fn spec_open_all(s: Seq<RegistryEntry>, devices: Seq<DualSense>) -> (
    Seq<RegistryEntry>,
    Seq<ManagerEventModel>,
)
    decreases devices.len(),
{
    if devices.len() == 0 {
        (s, Seq::empty())
    } else {
        let prev = spec_open_all(s, devices.drop_last());
        let step = spec_insert(prev.0, devices.last());
        (step.0, prev.1 + step.1)
    }
}

/// The registry of currently open sessions. The backing vector holds at
/// most one entry per identity; all mutations go through transitions whose
/// contracts are stated against the spec-level model above.
#[derive(Debug)]
pub struct DeviceManager {
    opened_devices: Vec<RegistryEntry>,
}

impl View for DeviceManager {
    type V = Seq<RegistryEntry>;

    closed spec fn view(&self) -> Seq<RegistryEntry> {
        self.opened_devices@
    }
}

impl DeviceManager {
    /// Registry well-formedness: no identity maps to more than one live
    /// session.
    pub open spec fn wf(self) -> bool {
        spec_wf(self@)
    }

    /// An empty registry.
    pub fn new() -> (m: DeviceManager)
        ensures
            m@ == Seq::<RegistryEntry>::empty(),
            m.wf(),
    {
        DeviceManager { opened_devices: Vec::new() }
    }

    /// The number of live sessions.
    pub fn device_count(&self) -> (r: usize)
        ensures
            r == self@.len(),
    {
        self.opened_devices.len()
    }

    /// Whether `id` is live in the registry.
    pub fn contains_device(&self, id: DeviceId) -> (r: bool)
        ensures
            r == spec_contains_id(self@, id),
    {
        let n = self.opened_devices.len();
        for i in 0..n
            invariant
                n == self.opened_devices.len(),
                forall|k: int| 0 <= k < i ==> self.opened_devices@[k].device_id != id,
        {
            if self.opened_devices[i].device_id == id {
                return true;
            }
        }
        false
    }

    /// Inserts a freshly opened device. Idempotent: an identity that is
    /// already live leaves the registry unchanged and emits nothing; a new
    /// one is appended and announced with exactly one `Connected` event.
    pub fn insert_device(&mut self, device: DualSense) -> (events: Vec<DeviceManagerEvent>)
        ensures
            final(self)@ == spec_insert(old(self)@, device).0,
            events_view(events@) == spec_insert(old(self)@, device).1,
            old(self).wf() ==> final(self).wf(),
    {
        if self.contains_device(device.device_id()) {
            let events: Vec<DeviceManagerEvent> = Vec::new();
            assert(events_view(events@) =~= spec_insert(self@, device).1);
            return events;
        }
        let id = device.device_id();
        let name = device.name();
        self.opened_devices.push(
            RegistryEntry { device_id: id, connection_type: device.connection_type() },
        );
        let mut events: Vec<DeviceManagerEvent> = Vec::new();
        events.push(DeviceManagerEvent::Connected(id, name));
        proof {
            assert(events_view(events@) =~= spec_insert(old(self)@, device).1);
            assert forall|i: int, j: int| 0 <= i < j < final(self)@.len() && old(self).wf() implies (
            #[trigger] final(self)@[i].device_id) != (#[trigger] final(self)@[j].device_id) by {
                if j == final(self)@.len() - 1 {
                    assert(!spec_contains_id(old(self)@, device.device_id));
                }
            }
        }
        events
    }

    /// Removes `id` from the registry and emits exactly one `Disconnected`
    /// event, whether or not a session existed (defensive removal).
    pub fn close_device(&mut self, id: DeviceId) -> (events: Vec<DeviceManagerEvent>)
        ensures
            final(self)@ == spec_close(old(self)@, id).0,
            events_view(events@) == spec_close(old(self)@, id).1,
            old(self).wf() ==> final(self).wf(),
    {
        let ghost s = self.opened_devices@;
        let n = self.opened_devices.len();
        let mut kept: Vec<RegistryEntry> = Vec::new();
        assert(kept@ =~= spec_remove_id(s.take(0), id));
        for i in 0..n
            invariant
                n == self.opened_devices.len(),
                s == self.opened_devices@,
                kept@ == spec_remove_id(s.take(i as int), id),
        {
            let entry = self.opened_devices[i];
            proof {
                assert(s.take(i + 1).drop_last() =~= s.take(i as int));
                assert(s.take(i + 1).last() == s[i as int]);
            }
            if entry.device_id != id {
                kept.push(entry);
            }
        }
        proof {
            assert(s.take(n as int) =~= s);
        }
        self.opened_devices = kept;
        let mut events: Vec<DeviceManagerEvent> = Vec::new();
        events.push(DeviceManagerEvent::Disconnected(id));
        proof {
            assert(events_view(events@) =~= spec_close(old(self)@, id).1);
            if old(self).wf() {
                lemma_remove_id_wf(s, id);
            }
        }
        events
    }

    /// Applies one read outcome for the session `id`: the refresh-status
    /// step for a single device. See [`spec_update_device`] for the exact
    /// transition.
    pub fn update_device_status(&mut self, id: DeviceId, outcome: ReadOutcome) -> (events: Vec<
        DeviceManagerEvent,
    >)
        ensures
            final(self)@ == spec_update_device(old(self)@, id, outcome@).0,
            events_view(events@) == spec_update_device(old(self)@, id, outcome@).1,
            old(self).wf() ==> final(self).wf(),
    {
        if !self.contains_device(id) {
            let events: Vec<DeviceManagerEvent> = Vec::new();
            assert(events_view(events@) =~= spec_update_device(self@, id, outcome@).1);
            return events;
        }
        let data = match outcome {
            ReadOutcome::TimedOut => {
                return self.close_device(id);
            },
            ReadOutcome::Data(data) => data,
        };
        if data.len() == 0 {
            return self.close_device(id);
        }
        let kind = match DualSenseConnectionType::from_report_size(data.len()) {
            Some(kind) => kind,
            None => {
                let events: Vec<DeviceManagerEvent> = Vec::new();
                assert(events_view(events@) =~= spec_update_device(self@, id, Some(data@)).1);
                return events;
            },
        };
        let ghost s = self.opened_devices@;
        let n = self.opened_devices.len();
        for i in 0..n
            invariant
                n == self.opened_devices.len(),
                s.len() == n,
                forall|k: int| 0 <= k < i ==> self.opened_devices@[k] == spec_set_kind(s, id, kind)[k],
                forall|k: int| i <= k < n ==> self.opened_devices@[k] == s[k],
        {
            if self.opened_devices[i].device_id == id {
                self.opened_devices[i] = RegistryEntry { device_id: id, connection_type: kind };
            }
        }
        proof {
            assert(self.opened_devices@ =~= spec_set_kind(s, id, kind));
            if old(self).wf() {
                assert forall|i: int, j: int| 0 <= i < j < self@.len() implies (
                #[trigger] self@[i].device_id) != (#[trigger] self@[j].device_id) by {
                    assert(self@[i].device_id == s[i].device_id);
                    assert(self@[j].device_id == s[j].device_id);
                }
            }
        }
        let report = DualSenseInputReport::parse(data.as_slice()).unwrap();
        let (capacity, charging_nibble) = report.battery();
        let reading = BatteryStatus { capacity, charging: charging_nibble != 0 };
        let mut events: Vec<DeviceManagerEvent> = Vec::new();
        events.push(DeviceManagerEvent::BatteryUpdate(id, reading));
        proof {
            assert(events_view(events@) =~= spec_update_device(s, id, Some(data@)).1);
        }
        events
    }

    /// Inserts every successfully opened device in turn and returns the
    /// `Connected` events in order. Enumerating zero matching devices emits
    /// zero events and completes without error.
    pub fn open_all_devices(&mut self, devices: Vec<DualSense>) -> (events: Vec<
        DeviceManagerEvent,
    >)
        ensures
            final(self)@ == spec_open_all(old(self)@, devices@).0,
            events_view(events@) == spec_open_all(old(self)@, devices@).1,
            old(self).wf() ==> final(self).wf(),
            devices@.len() == 0 ==> final(self)@ == old(self)@ && events@.len() == 0,
    {
        let mut events: Vec<DeviceManagerEvent> = Vec::new();
        let n = devices.len();
        assert(events_view(events@) =~= Seq::<ManagerEventModel>::empty());
        for i in 0..n
            invariant
                n == devices.len(),
                self@ == spec_open_all(old(self)@, devices@.take(i as int)).0,
                events_view(events@) == spec_open_all(old(self)@, devices@.take(i as int)).1,
                old(self).wf() ==> self.wf(),
        {
            let ghost pre = self@;
            let ghost pre_events = events@;
            let mut es = self.insert_device(devices[i]);
            events.append(&mut es);
            proof {
                assert(devices@.take(i + 1).drop_last() =~= devices@.take(i as int));
                assert(devices@.take(i + 1).last() == devices@[i as int]);
                assert(events_view(events@) =~= events_view(pre_events) + spec_insert(
                    pre,
                    devices@[i as int],
                ).1);
            }
        }
        proof {
            assert(devices@.take(n as int) =~= devices@);
        }
        events
    }

    /// The identities of all live sessions, in registry order: the targets
    /// of a status refresh. The caller reads each device independently and
    /// feeds every outcome to [`Self::update_device_status`]; one failing
    /// device never blocks the refresh of the others.
    pub fn status_snapshot(&self) -> (ids: Vec<DeviceId>)
        ensures
            ids@.len() == self@.len(),
            forall|i: int| 0 <= i < self@.len() ==> ids@[i] == self@[i].device_id,
    {
        let mut ids: Vec<DeviceId> = Vec::new();
        let n = self.opened_devices.len();
        for i in 0..n
            invariant
                n == self.opened_devices.len(),
                ids@.len() == i,
                forall|k: int| 0 <= k < i ==> ids@[k] == self.opened_devices@[k].device_id,
        {
            ids.push(self.opened_devices[i].device_id);
        }
        ids
    }
}

/// Removal keeps only entries of other identities, in their old order.
pub proof fn lemma_remove_id_membership(s: Seq<RegistryEntry>, id: DeviceId, x: DeviceId)
    ensures
        spec_contains_id(spec_remove_id(s, id), x) <==> (spec_contains_id(s, x) && x != id),
    decreases s.len(),
{
    if s.len() == 0 {
        assert(!spec_contains_id(spec_remove_id(s, id), x));
        assert(!spec_contains_id(s, x));
    } else {
        lemma_remove_id_membership(s.drop_last(), id, x);
        let d = s.drop_last();
        let rest = spec_remove_id(d, id);
        assert(forall|i: int| 0 <= i < d.len() ==> #[trigger] d[i] == s[i]);
        if s.last().device_id == id {
            assert(spec_remove_id(s, id) == rest);
            if spec_contains_id(s, x) && x != id {
                let i = choose|i: int| 0 <= i < s.len() && s[i].device_id == x;
                assert(s[s.len() - 1] == s.last());
                assert(i < s.len() - 1);
                assert(d[i].device_id == x);
                assert(spec_contains_id(d, x));
            }
            if spec_contains_id(rest, x) {
                assert(spec_contains_id(d, x) && x != id);
                let i = choose|i: int| 0 <= i < d.len() && d[i].device_id == x;
                assert(s[i].device_id == x);
            }
        } else {
            let out = rest.push(s.last());
            assert(spec_remove_id(s, id) == out);
            assert(forall|i: int| 0 <= i < rest.len() ==> #[trigger] out[i] == rest[i]);
            assert(out[rest.len() as int] == s.last());
            if spec_contains_id(s, x) && x != id {
                let i = choose|i: int| 0 <= i < s.len() && s[i].device_id == x;
                if i < s.len() - 1 {
                    assert(d[i].device_id == x);
                    assert(spec_contains_id(d, x));
                    let j = choose|j: int| 0 <= j < rest.len() && rest[j].device_id == x;
                    assert(out[j].device_id == x);
                    assert(spec_contains_id(out, x));
                } else {
                    assert(s[s.len() - 1] == s.last());
                    assert(out[rest.len() as int].device_id == x);
                    assert(spec_contains_id(out, x));
                }
            }
            if spec_contains_id(out, x) {
                let i = choose|i: int| 0 <= i < out.len() && out[i].device_id == x;
                if i < rest.len() {
                    assert(rest[i].device_id == x);
                    assert(spec_contains_id(rest, x));
                    assert(spec_contains_id(d, x) && x != id);
                    let j = choose|j: int| 0 <= j < d.len() && d[j].device_id == x;
                    assert(s[j].device_id == x);
                } else {
                    assert(out[i] == s.last());
                    assert(s[s.len() - 1].device_id == x);
                    assert(x != id);
                }
            }
        }
    }
}

/// Removal preserves well-formedness.
pub proof fn lemma_remove_id_wf(s: Seq<RegistryEntry>, id: DeviceId)
    requires
        spec_wf(s),
    ensures
        spec_wf(spec_remove_id(s, id)),
        !spec_contains_id(spec_remove_id(s, id), id),
    decreases s.len(),
{
    lemma_remove_id_membership(s, id, id);
    if s.len() > 0 {
        assert(spec_wf(s.drop_last())) by {
            assert(forall|i: int|
                0 <= i < s.len() - 1 ==> s.drop_last()[i] == s[i]);
        }
        lemma_remove_id_wf(s.drop_last(), id);
        let rest = spec_remove_id(s.drop_last(), id);
        if s.last().device_id != id {
            lemma_remove_id_subset(s.drop_last(), id);
            assert forall|i: int, j: int| 0 <= i < j < rest.push(s.last()).len() implies (
            #[trigger] rest.push(s.last())[i].device_id) != (#[trigger] rest.push(
                s.last(),
            )[j].device_id) by {
                if j == rest.len() {
                    let e = rest[i];
                    assert(spec_contains_id(rest, e.device_id));
                    lemma_remove_id_membership(s.drop_last(), id, e.device_id);
                    let k = choose|k: int|
                        0 <= k < s.drop_last().len() && s.drop_last()[k].device_id == e.device_id;
                    assert(s[k] == s.drop_last()[k]);
                    assert(s[k].device_id != s[s.len() - 1].device_id);
                }
            }
        }
    }
}

/// Every entry that removal keeps was an entry before.
pub proof fn lemma_remove_id_subset(s: Seq<RegistryEntry>, id: DeviceId)
    ensures
        forall|i: int|
            0 <= i < spec_remove_id(s, id).len() ==> spec_contains_id(
                s,
                (#[trigger] spec_remove_id(s, id)[i]).device_id,
            ),
    decreases s.len(),
{
    if s.len() > 0 {
        lemma_remove_id_subset(s.drop_last(), id);
        let rest = spec_remove_id(s.drop_last(), id);
        assert forall|i: int| 0 <= i < spec_remove_id(s, id).len() implies spec_contains_id(
            s,
            (#[trigger] spec_remove_id(s, id)[i]).device_id,
        ) by {
            if s.last().device_id == id {
                let e = spec_remove_id(s, id)[i];
                assert(spec_contains_id(s.drop_last(), e.device_id));
                let k = choose|k: int|
                    0 <= k < s.drop_last().len() && s.drop_last()[k].device_id == e.device_id;
                assert(s[k].device_id == e.device_id);
            } else {
                if i < rest.len() {
                    let e = rest[i];
                    assert(spec_contains_id(s.drop_last(), e.device_id));
                    let k = choose|k: int|
                        0 <= k < s.drop_last().len() && s.drop_last()[k].device_id == e.device_id;
                    assert(s[k].device_id == e.device_id);
                } else {
                    assert(spec_remove_id(s, id)[i] == s.last());
                    assert(s[s.len() - 1].device_id == s.last().device_id);
                }
            }
        }
    }
}

} // verus!
