use crate::compare::device_state_matches;
use crate::devices::{
    commit_post, committed_device, corrected_device, expected_state, reconciled, scene_kept, Commit,
    DeviceError, Devices, Reaction,
};
use crate::scenes::Scenes;
use crate::types::{ControllableDevice, ControllableState, Device, DeviceData, ManageKind};
use vstd::prelude::*;

verus! {

/// Committing the same device twice with the same flags changes nothing the
/// second time: the record stays as it is, no change notification is due and
/// nothing is persisted.
pub proof fn lemma_commit_idempotent(
    d0: Devices,
    d1: Devices,
    d2: Devices,
    scenes: Scenes,
    device: Device,
    set_scene: bool,
    skip_db: bool,
    skip_send: bool,
    c1: Commit,
    c2: Commit,
)
    requires
        commit_post(d0, d1, scenes, device, set_scene, skip_db, skip_send, c1),
        commit_post(d1, d2, scenes, device, set_scene, skip_db, skip_send, c2),
    ensures
        c2.device == c1.device,
        c2.update is None,
        !c2.persist,
        d2@ == d1@,
{
    let key = device.key();
    let k0 = scene_kept(d0@, device, set_scene);
    let k1 = scene_kept(d1@, device, set_scene);
    assert(c1.device.scene == k0.scene);
    assert(d1@[key] == c1.device);
    if !set_scene {
        if !d0@.contains_key(key) {
            assert(k1 == k0);
        }
    }
    assert(k1 == k0);
    assert(expected_state(d1@, scenes, k1, true) == expected_state(d0@, scenes, k0, true));
    assert(c2.device == c1.device);
    assert(c1.device.key() == key);
}

/// The first sighting of a key with no persisted record creates the record,
/// marked as discovered, with a change notification, persistence, and
/// dispatch of controllable devices.
pub proof fn lemma_discovery(
    d0: Devices,
    d1: Devices,
    scenes: Scenes,
    incoming: Device,
    r: Result<Reaction, DeviceError>,
)
    requires
        !d0@.contains_key(incoming.key()),
        reconciled(d0, d1, scenes, incoming, None, r),
    ensures
        r matches Ok(Reaction::Discovered { restored, commit }) && !restored
            && commit.update is Some && commit.persist && commit.send == !(incoming.data is Sensor),
        d1@.contains_key(incoming.key()),
{
}

/// After the first sighting of a key, observing the device exactly as it was
/// committed changes nothing, unless it still owes the echo of a change.
pub proof fn lemma_rediscovery_unchanged(
    d0: Devices,
    d1: Devices,
    d2: Devices,
    scenes: Scenes,
    incoming: Device,
    again: Device,
    persisted: Option<Device>,
    r1: Result<Reaction, DeviceError>,
    r2: Result<Reaction, DeviceError>,
)
    requires
        !d0@.contains_key(incoming.key()),
        reconciled(d0, d1, scenes, incoming, None, r1),
        r1 matches Ok(Reaction::Discovered { commit, .. }) && again == commit.device,
        !(again.data matches DeviceData::Controllable(c) && c.managed == (ManageKind::Partial {
            prev_change_committed: false,
        })),
        reconciled(d1, d2, scenes, again, persisted, r2),
    ensures
        d2@ == d1@,
        r2 matches Ok(Reaction::Unchanged) || (r2 matches Ok(Reaction::Committed(c))
            && c.update is None),
{
    let key = incoming.key();
    let first = committed_device(d0@, scenes, incoming, true);
    assert(again == first);
    assert(d1@[key] == first);
    assert(again.key() == key);
    match again.data {
        DeviceData::Sensor(s) => {},
        DeviceData::Controllable(ic) => {
            let e = expected_state(d1@, scenes, first, false);
            assert(e is Some);
            if again.spec_is_managed() {
                assert(device_state_matches(ic, e->0));
            } else {
                assert(scene_kept(d1@, again, false) == again);
            }
        },
    }
}

/// Committing without setting the scene keeps the scene of the record.
pub proof fn lemma_scene_sticky(
    d0: Devices,
    d1: Devices,
    scenes: Scenes,
    device: Device,
    skip_db: bool,
    skip_send: bool,
    c: Commit,
)
    requires
        d0@.contains_key(device.key()),
        commit_post(d0, d1, scenes, device, false, skip_db, skip_send, c),
    ensures
        c.device.scene == d0@[device.key()].scene,
        d1@[device.key()].scene == d0@[device.key()].scene,
{
}

/// A managed device observed away from its expected state gets a corrective
/// command carrying the expected state, and the store keeps its record.
pub proof fn lemma_drift_correction(
    d0: Devices,
    d1: Devices,
    scenes: Scenes,
    incoming: Device,
    ic: ControllableDevice,
    expected: ControllableState,
    persisted: Option<Device>,
    r: Result<Reaction, DeviceError>,
)
    requires
        d0@.contains_key(incoming.key()),
        incoming.data == DeviceData::Controllable(ic),
        ic.managed != ManageKind::Unmanaged,
        expected_state(d0@, scenes, d0@[incoming.key()], false) == Some(expected),
        !device_state_matches(ic, expected),
        reconciled(d0, d1, scenes, incoming, persisted, r),
    ensures
        r matches Ok(Reaction::Correct { device }) && device == corrected_device(
            incoming,
            ic,
            expected,
        ),
        d1 == d0,
{
}

/// A partially managed device that still owes the echo of a change and
/// reports its expected state has the echo recorded, with nothing sent back.
pub proof fn lemma_partial_echo(
    d0: Devices,
    d1: Devices,
    scenes: Scenes,
    incoming: Device,
    ic: ControllableDevice,
    expected: ControllableState,
    persisted: Option<Device>,
    r: Result<Reaction, DeviceError>,
)
    requires
        d0@.contains_key(incoming.key()),
        incoming.data == DeviceData::Controllable(ic),
        ic.managed == (ManageKind::Partial { prev_change_committed: false }),
        expected_state(d0@, scenes, d0@[incoming.key()], false) == Some(expected),
        device_state_matches(ic, expected),
        reconciled(d0, d1, scenes, incoming, persisted, r),
    ensures
        r matches Ok(Reaction::Committed(c)) && !c.send && (c.device.data matches DeviceData::Controllable(
            cd,
        ) && cd.managed == (ManageKind::Partial { prev_change_committed: true })),
{
}

} // verus!
