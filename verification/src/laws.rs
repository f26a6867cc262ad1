//! Global laws of the device registry.
//!
//! The registry operations are modelled as pure transitions
//! ([`spec_insert`], [`spec_close`], [`spec_update_device`],
//! [`spec_open_all`]); this module states and proves what holds of every
//! sequence of such transitions: the registry never maps one identity to two
//! live sessions, its live set always agrees with the emitted event trace,
//! and a status refresh delivers every healthy device's battery reading no
//! matter how the other devices fail.

use vstd::prelude::*;

use crate::device_manager::{
    spec_battery_reading, spec_close, spec_contains_id, spec_insert, spec_open_all,
    spec_remove_id, spec_set_kind, spec_update_device, spec_wf, ManagerEventModel, RegistryEntry,
};
use crate::session::{DeviceId, DualSense};
use crate::transport::{DS_INPUT_REPORT_BT_SIZE, DS_INPUT_REPORT_USB_SIZE};

verus! {

/// One registry operation, at the level of the spec model.
pub enum ManagerOp {
    /// A successful device open was handed to the registry.
    Insert(DualSense),
    /// A hotplug disconnect notice arrived.
    Close(DeviceId),
    /// One read outcome of a status refresh was applied (`None` is a
    /// timeout).
    UpdateStatus(DeviceId, Option<Seq<u8>>),
    /// A bulk open handed over a batch of opened devices.
    OpenAll(Seq<DualSense>),
}

/// The transition of one operation.
pub open spec fn spec_step(s: Seq<RegistryEntry>, op: ManagerOp) -> (
    Seq<RegistryEntry>,
    Seq<ManagerEventModel>,
) {
    match op {
        ManagerOp::Insert(device) => spec_insert(s, device),
        ManagerOp::Close(id) => spec_close(s, id),
        ManagerOp::UpdateStatus(id, outcome) => spec_update_device(s, id, outcome),
        ManagerOp::OpenAll(devices) => spec_open_all(s, devices),
    }
}

/// The registry and the concatenated event trace after a sequence of
/// operations.
pub open spec fn spec_run(s: Seq<RegistryEntry>, ops: Seq<ManagerOp>) -> (
    Seq<RegistryEntry>,
    Seq<ManagerEventModel>,
)
    decreases ops.len(),
{
    if ops.len() == 0 {
        (s, Seq::empty())
    } else {
        let prev = spec_run(s, ops.drop_last());
        let step = spec_step(prev.0, ops.last());
        (step.0, prev.1 + step.1)
    }
}

/// How one emitted event changes the set of identities a consumer considers
/// live.
pub open spec fn live_step(live: Set<DeviceId>, ev: ManagerEventModel) -> Set<DeviceId> {
    match ev {
        ManagerEventModel::Connected(id, name) => live.insert(id),
        ManagerEventModel::Disconnected(id) => live.remove(id),
        ManagerEventModel::BatteryUpdate(id, reading) => live,
    }
}

/// The live set after consuming a trace, starting from `live`.
pub open spec fn live_from(live: Set<DeviceId>, tr: Seq<ManagerEventModel>) -> Set<DeviceId>
    decreases tr.len(),
{
    if tr.len() == 0 {
        live
    } else {
        live_step(live_from(live, tr.drop_last()), tr.last())
    }
}

/// The identities whose last `Connected` event is not yet followed by a
/// `Disconnected`.
pub open spec fn live_after(tr: Seq<ManagerEventModel>) -> Set<DeviceId> {
    live_from(Set::empty(), tr)
}

/// The set of identities live in a registry.
pub open spec fn ids_set(s: Seq<RegistryEntry>) -> Set<DeviceId> {
    Set::new(|id: DeviceId| spec_contains_id(s, id))
}

proof fn lemma_live_from_singleton(live: Set<DeviceId>, ev: ManagerEventModel)
    ensures
        live_from(live, seq![ev]) == live_step(live, ev),
{
    let tr = seq![ev];
    assert(tr.drop_last() =~= Seq::<ManagerEventModel>::empty());
    assert(live_from(live, tr.drop_last()) == live);
    assert(tr.last() == ev);
}

proof fn lemma_live_from_append(
    live: Set<DeviceId>,
    a: Seq<ManagerEventModel>,
    b: Seq<ManagerEventModel>,
)
    ensures
        live_from(live, a + b) == live_from(live_from(live, a), b),
    decreases b.len(),
{
    if b.len() == 0 {
        assert(a + b =~= a);
    } else {
        lemma_live_from_append(live, a, b.drop_last());
        assert((a + b).drop_last() =~= a + b.drop_last());
        assert((a + b).last() == b.last());
    }
}

proof fn lemma_contains_push(s: Seq<RegistryEntry>, e: RegistryEntry, x: DeviceId)
    ensures
        spec_contains_id(s.push(e), x) <==> (spec_contains_id(s, x) || e.device_id == x),
{
    assert(forall|i: int| 0 <= i < s.len() ==> #[trigger] s.push(e)[i] == s[i]);
    assert(s.push(e)[s.len() as int] == e);
    if spec_contains_id(s.push(e), x) {
        let i = choose|i: int| 0 <= i < s.push(e).len() && s.push(e)[i].device_id == x;
        if i < s.len() {
            assert(s[i].device_id == x);
        }
    }
    if spec_contains_id(s, x) {
        let i = choose|i: int| 0 <= i < s.len() && s[i].device_id == x;
        assert(s.push(e)[i].device_id == x);
    }
    if e.device_id == x {
        assert(s.push(e)[s.len() as int].device_id == x);
    }
}

proof fn lemma_set_kind_ids(
    s: Seq<RegistryEntry>,
    id: DeviceId,
    kind: crate::transport::DualSenseConnectionType,
)
    ensures
        spec_set_kind(s, id, kind).len() == s.len(),
        forall|i: int|
            0 <= i < s.len() ==> (#[trigger] spec_set_kind(s, id, kind)[i]).device_id
                == s[i].device_id,
        forall|x: DeviceId|
            spec_contains_id(spec_set_kind(s, id, kind), x) == spec_contains_id(s, x),
        spec_wf(s) ==> spec_wf(spec_set_kind(s, id, kind)),
{
    let t = spec_set_kind(s, id, kind);
    assert forall|x: DeviceId| spec_contains_id(t, x) == spec_contains_id(s, x) by {
        if spec_contains_id(t, x) {
            let i = choose|i: int| 0 <= i < t.len() && t[i].device_id == x;
            assert(s[i].device_id == x);
        }
        if spec_contains_id(s, x) {
            let i = choose|i: int| 0 <= i < s.len() && s[i].device_id == x;
            assert(t[i].device_id == x);
        }
    }
}

/// Inserting preserves well-formedness and moves the live set exactly as
/// its emitted events say.
proof fn lemma_insert_preserves(s: Seq<RegistryEntry>, device: DualSense)
    requires
        spec_wf(s),
    ensures
        spec_wf(spec_insert(s, device).0),
        ids_set(spec_insert(s, device).0) =~= live_from(ids_set(s), spec_insert(s, device).1),
{
    let id = device.device_id;
    if spec_contains_id(s, id) {
        assert(live_from(ids_set(s), Seq::empty()) == ids_set(s));
    } else {
        let e = RegistryEntry { device_id: id, connection_type: device.connection_type };
        let t = s.push(e);
        assert forall|i: int, j: int| 0 <= i < j < t.len() implies (#[trigger] t[i].device_id) != (
        #[trigger] t[j].device_id) by {
            assert(forall|k: int| 0 <= k < s.len() ==> #[trigger] t[k] == s[k]);
            assert(t[s.len() as int] == e);
            if j == s.len() {
                if t[i].device_id == id {
                    assert(s[i].device_id == id);
                }
            }
        }
        let ev = ManagerEventModel::Connected(id, device.spec_name());
        lemma_live_from_singleton(ids_set(s), ev);
        assert forall|x: DeviceId| ids_set(t).contains(x) == ids_set(s).insert(id).contains(
            x,
        ) by {
            lemma_contains_push(s, e, x);
        }
    }
}

/// Closing preserves well-formedness and moves the live set exactly as its
/// emitted event says, whether or not the identity was present.
proof fn lemma_close_preserves(s: Seq<RegistryEntry>, id: DeviceId)
    requires
        spec_wf(s),
    ensures
        spec_wf(spec_close(s, id).0),
        ids_set(spec_close(s, id).0) =~= live_from(ids_set(s), spec_close(s, id).1),
{
    crate::device_manager::lemma_remove_id_wf(s, id);
    lemma_live_from_singleton(ids_set(s), ManagerEventModel::Disconnected(id));
    assert forall|x: DeviceId| ids_set(spec_remove_id(s, id)).contains(x) == ids_set(
        s,
    ).remove(id).contains(x) by {
        crate::device_manager::lemma_remove_id_membership(s, id, x);
    }
}

/// Applying one read outcome preserves well-formedness and moves the live
/// set exactly as its emitted events say.
proof fn lemma_update_preserves(s: Seq<RegistryEntry>, id: DeviceId, outcome: Option<Seq<u8>>)
    requires
        spec_wf(s),
    ensures
        spec_wf(spec_update_device(s, id, outcome).0),
        ids_set(spec_update_device(s, id, outcome).0) =~= live_from(
            ids_set(s),
            spec_update_device(s, id, outcome).1,
        ),
{
    if !spec_contains_id(s, id) {
        assert(live_from(ids_set(s), Seq::empty()) == ids_set(s));
    } else {
        match outcome {
            Option::None => {
                lemma_close_preserves(s, id);
            },
            Option::Some(data) => {
                if data.len() == 0 {
                    lemma_close_preserves(s, id);
                } else if data.len() == DS_INPUT_REPORT_USB_SIZE {
                    lemma_set_kind_ids(s, id, crate::transport::DualSenseConnectionType::USB);
                    lemma_live_from_singleton(
                        ids_set(s),
                        ManagerEventModel::BatteryUpdate(id, spec_battery_reading(data, 1)),
                    );
                } else if data.len() == DS_INPUT_REPORT_BT_SIZE {
                    lemma_set_kind_ids(s, id, crate::transport::DualSenseConnectionType::BT);
                    lemma_live_from_singleton(
                        ids_set(s),
                        ManagerEventModel::BatteryUpdate(id, spec_battery_reading(data, 2)),
                    );
                } else {
                    assert(live_from(ids_set(s), Seq::empty()) == ids_set(s));
                }
            },
        }
    }
}

/// A bulk open preserves well-formedness and moves the live set exactly as
/// its emitted events say.
proof fn lemma_open_all_preserves(s: Seq<RegistryEntry>, devices: Seq<DualSense>)
    requires
        spec_wf(s),
    ensures
        spec_wf(spec_open_all(s, devices).0),
        ids_set(spec_open_all(s, devices).0) =~= live_from(
            ids_set(s),
            spec_open_all(s, devices).1,
        ),
    decreases devices.len(),
{
    if devices.len() == 0 {
        assert(live_from(ids_set(s), Seq::empty()) == ids_set(s));
    } else {
        lemma_open_all_preserves(s, devices.drop_last());
        let prev = spec_open_all(s, devices.drop_last());
        lemma_insert_preserves(prev.0, devices.last());
        lemma_live_from_append(ids_set(s), prev.1, spec_insert(prev.0, devices.last()).1);
        assert(ids_set(prev.0) == live_from(ids_set(s), prev.1));
    }
}

/// Every single operation preserves well-formedness and moves the live set
/// exactly as its emitted events say.
proof fn lemma_step_preserves(s: Seq<RegistryEntry>, op: ManagerOp)
    requires
        spec_wf(s),
    ensures
        spec_wf(spec_step(s, op).0),
        ids_set(spec_step(s, op).0) =~= live_from(ids_set(s), spec_step(s, op).1),
{
    match op {
        ManagerOp::Insert(device) => lemma_insert_preserves(s, device),
        ManagerOp::Close(id) => lemma_close_preserves(s, id),
        ManagerOp::UpdateStatus(id, outcome) => lemma_update_preserves(s, id, outcome),
        ManagerOp::OpenAll(devices) => lemma_open_all_preserves(s, devices),
    }
}

proof fn lemma_run_preserves(s: Seq<RegistryEntry>, ops: Seq<ManagerOp>)
    requires
        spec_wf(s),
    ensures
        spec_wf(spec_run(s, ops).0),
        ids_set(spec_run(s, ops).0) =~= live_from(ids_set(s), spec_run(s, ops).1),
    decreases ops.len(),
{
    if ops.len() == 0 {
        assert(live_from(ids_set(s), Seq::empty()) == ids_set(s));
    } else {
        lemma_run_preserves(s, ops.drop_last());
        let prev = spec_run(s, ops.drop_last());
        lemma_step_preserves(prev.0, ops.last());
        lemma_live_from_append(ids_set(s), prev.1, spec_step(prev.0, ops.last()).1);
        assert(ids_set(prev.0) == live_from(ids_set(s), prev.1));
    }
}

/// The registry and the concatenated events after one status refresh: each
/// targeted session's read outcome is applied in turn.
pub open spec fn spec_refresh(
    s: Seq<RegistryEntry>,
    reads: Seq<(DeviceId, Option<Seq<u8>>)>,
) -> (Seq<RegistryEntry>, Seq<ManagerEventModel>)
    decreases reads.len(),
{
    if reads.len() == 0 {
        (s, Seq::empty())
    } else {
        let prev = spec_refresh(s, reads.drop_last());
        let step = spec_update_device(prev.0, reads.last().0, reads.last().1);
        (step.0, prev.1 + step.1)
    }
}

/// Applying a read outcome for one identity never changes whether another
/// identity is live.
proof fn lemma_update_preserves_other(
    s: Seq<RegistryEntry>,
    id: DeviceId,
    outcome: Option<Seq<u8>>,
    x: DeviceId,
)
    requires
        x != id,
    ensures
        spec_contains_id(spec_update_device(s, id, outcome).0, x) == spec_contains_id(s, x),
{
    if spec_contains_id(s, id) {
        match outcome {
            Option::None => {
                crate::device_manager::lemma_remove_id_membership(s, id, x);
            },
            Option::Some(data) => {
                if data.len() == 0 {
                    crate::device_manager::lemma_remove_id_membership(s, id, x);
                } else if data.len() == DS_INPUT_REPORT_USB_SIZE {
                    lemma_set_kind_ids(s, id, crate::transport::DualSenseConnectionType::USB);
                } else if data.len() == DS_INPUT_REPORT_BT_SIZE {
                    lemma_set_kind_ids(s, id, crate::transport::DualSenseConnectionType::BT);
                }
            },
        }
    }
}

/// A refresh that never targets `x` never changes whether `x` is live.
proof fn lemma_refresh_preserves_other(
    s: Seq<RegistryEntry>,
    reads: Seq<(DeviceId, Option<Seq<u8>>)>,
    x: DeviceId,
)
    requires
        forall|i: int| 0 <= i < reads.len() ==> (#[trigger] reads[i]).0 != x,
    ensures
        spec_contains_id(spec_refresh(s, reads).0, x) == spec_contains_id(s, x),
    decreases reads.len(),
{
    if reads.len() > 0 {
        lemma_refresh_preserves_other(s, reads.drop_last(), x);
        let prev = spec_refresh(s, reads.drop_last());
        assert(reads[reads.len() - 1] == reads.last());
        lemma_update_preserves_other(prev.0, reads.last().0, reads.last().1, x);
    }
}

/// Refresh isolation. In one status refresh over sessions with distinct,
/// live identities, every session whose read returns a recognized report
/// gets its `BatteryUpdate` event, no matter how the reads of the other
/// sessions end: a hanging or failing device never suppresses a healthy
/// one's reading.
pub proof fn lemma_refresh_isolation(
    s: Seq<RegistryEntry>,
    reads: Seq<(DeviceId, Option<Seq<u8>>)>,
    k: int,
)
    requires
        forall|i: int, j: int|
            0 <= i < j < reads.len() ==> (#[trigger] reads[i]).0 != (#[trigger] reads[j]).0,
        forall|i: int| 0 <= i < reads.len() ==> spec_contains_id(s, (#[trigger] reads[i]).0),
        0 <= k < reads.len(),
        reads[k].1 matches Some(data) && (data.len() == DS_INPUT_REPORT_USB_SIZE || data.len()
            == DS_INPUT_REPORT_BT_SIZE),
    ensures
        reads[k].1 matches Some(data) ==> spec_refresh(s, reads).1.contains(
            ManagerEventModel::BatteryUpdate(
                reads[k].0,
                spec_battery_reading(
                    data,
                    if data.len() == DS_INPUT_REPORT_USB_SIZE {
                        1int
                    } else {
                        2int
                    },
                ),
            ),
        ),
    decreases reads.len(),
{
    let data = reads[k].1->0;
    let id = reads[k].0;
    let off: int = if data.len() == DS_INPUT_REPORT_USB_SIZE {
        1
    } else {
        2
    };
    let ev = ManagerEventModel::BatteryUpdate(id, spec_battery_reading(data, off));
    let prev = spec_refresh(s, reads.drop_last());
    let step = spec_update_device(prev.0, reads.last().0, reads.last().1);
    if k == reads.len() - 1 {
        assert(reads[k] == reads.last());
        assert forall|i: int| 0 <= i < reads.drop_last().len() implies (#[trigger] reads.drop_last(
        )[i]).0 != id by {
            assert(reads.drop_last()[i] == reads[i]);
        }
        lemma_refresh_preserves_other(s, reads.drop_last(), id);
        assert(spec_contains_id(prev.0, id));
        assert(step.1 == seq![ev]);
        assert((prev.1 + step.1)[prev.1.len() as int] == ev);
        assert(spec_refresh(s, reads).1.contains(ev));
    } else {
        assert forall|i: int, j: int| 0 <= i < j < reads.drop_last().len() implies (
        #[trigger] reads.drop_last()[i]).0 != (#[trigger] reads.drop_last()[j]).0 by {
            assert(reads.drop_last()[i] == reads[i]);
            assert(reads.drop_last()[j] == reads[j]);
        }
        assert forall|i: int| 0 <= i < reads.drop_last().len() implies spec_contains_id(
            s,
            (#[trigger] reads.drop_last()[i]).0,
        ) by {
            assert(reads.drop_last()[i] == reads[i]);
        }
        assert(reads.drop_last()[k] == reads[k]);
        lemma_refresh_isolation(s, reads.drop_last(), k);
        assert(prev.1.contains(ev));
        let i = choose|i: int| 0 <= i < prev.1.len() && prev.1[i] == ev;
        assert((prev.1 + step.1)[i] == ev);
        assert(spec_refresh(s, reads).1.contains(ev));
    }
}

/// Registry invariant. After any sequence of operations from the empty
/// registry, at any observation point: no identity maps to more than one
/// live session, and the identities live in the registry are exactly those
/// whose last emitted `Connected` event is not yet followed by a
/// `Disconnected`.
pub proof fn lemma_registry_matches_events(ops: Seq<ManagerOp>)
    ensures
        spec_wf(spec_run(Seq::empty(), ops).0),
        ids_set(spec_run(Seq::empty(), ops).0) =~= live_after(spec_run(Seq::empty(), ops).1),
{
    let s = Seq::<RegistryEntry>::empty();
    assert(spec_wf(s));
    assert(ids_set(s) =~= Set::<DeviceId>::empty());
    lemma_run_preserves(s, ops);
}

} // verus!
