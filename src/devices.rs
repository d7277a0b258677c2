use crate::compare::{cmp_device_states, cmp_sensor_states, device_state_matches};
use crate::scenes::Scenes;
use crate::table::Table;
use crate::types::{
    sensor_same, ControllableDevice, ControllableState, Device, DeviceData, DeviceKey,
    DeviceNameRef, DeviceRef, KeyView, ManageKind, UNIT,
};
use vstd::prelude::*;

verus! {

/// The canonical runtime state: device key to device, in order of first
/// sighting.
pub type DevicesState = Table<DeviceKey, Device>;

/// A state that is on always has a brightness; full when none was given.
pub open spec fn with_default_brightness(s: ControllableState) -> ControllableState {
    if s.power && s.brightness is None {
        ControllableState { brightness: Some(UNIT), ..s }
    } else {
        s
    }
}

/// What a device's state should be now: the state its scene gives it, else
/// the state being set (`use_passed_state`), else the recorded state.
pub open spec fn expected_state(
    store: Map<KeyView, Device>,
    scenes: Scenes,
    device: Device,
    use_passed_state: bool,
) -> Option<ControllableState> {
    match device.data {
        DeviceData::Sensor(_) => None,
        DeviceData::Controllable(_) => {
            let base = match scenes.scene_state_for(device) {
                Some(s) => Some(
                    if use_passed_state {
                        ControllableState { transition_ms: None, ..s }
                    } else {
                        s
                    },
                ),
                None => if use_passed_state {
                    device.spec_controllable_state()
                } else if store.contains_key(device.key()) {
                    store[device.key()].spec_controllable_state()
                } else {
                    device.spec_controllable_state()
                },
            };
            match base {
                Some(s) => Some(with_default_brightness(s)),
                None => None,
            }
        },
    }
}

/// The device with its scene assignment taken from its record, unless the
/// scene is being set.
pub open spec fn scene_kept(store: Map<KeyView, Device>, device: Device, set_scene: bool) -> Device {
    if !set_scene && store.contains_key(device.key()) {
        Device { scene: store[device.key()].scene, ..device }
    } else {
        device
    }
}

/// The device as the store commits it.
pub open spec fn committed_device(
    store: Map<KeyView, Device>,
    scenes: Scenes,
    device: Device,
    set_scene: bool,
) -> Device {
    let d = scene_kept(store, device, set_scene);
    if set_scene || d.spec_is_managed() {
        match (expected_state(store, scenes, d, true), d.spec_capabilities()) {
            (Some(e), Some(caps)) => d.spec_set_controllable_state(
                e.spec_color_to_device_preferred_mode(caps),
            ),
            _ => d,
        }
    } else {
        d
    }
}

/// Whether committing the device changes the store.
pub open spec fn is_change(store: Map<KeyView, Device>, new: Device) -> bool {
    !store.contains_key(new.key()) || !store[new.key()].same_as(new)
}

pub open spec fn record_of(store: Map<KeyView, Device>, key: KeyView) -> Option<Device> {
    if store.contains_key(key) {
        Some(store[key])
    } else {
        None
    }
}

/// A commit depends on the store only through the scene assignment kept
/// from the record.
pub proof fn lemma_commit_depends_on_kept_scene(
    s1: Map<KeyView, Device>,
    s2: Map<KeyView, Device>,
    scenes: Scenes,
    d1: Device,
    d2: Device,
    set_scene: bool,
)
    requires
        scene_kept(s1, d1, set_scene) == scene_kept(s2, d2, set_scene),
    ensures
        committed_device(s1, scenes, d1, set_scene) == committed_device(s2, scenes, d2, set_scene),
{
    let k = scene_kept(s1, d1, set_scene);
    assert(expected_state(s1, scenes, k, true) == expected_state(s2, scenes, k, true));
}

/// Notification of a committed change, for groups, scenes, rules and live
/// subscribers.
#[derive(Debug)]
pub struct StateUpdate {
    pub old_state: DevicesState,
    pub new_state: DevicesState,
    pub old: Option<Device>,
    pub new: Device,
}

/// What committing a device brought about.
#[derive(Debug)]
pub struct Commit {
    /// The device as committed.
    pub device: Device,
    /// Present exactly when the store changed.
    pub update: Option<StateUpdate>,
    /// Whether the device is to be sent to its integration.
    pub send: bool,
    /// Whether the device is to be written to persistent storage.
    pub persist: bool,
}

/// How the store reacted to an observed device.
#[derive(Debug)]
pub enum Reaction {
    /// First sighting of the key; `restored` when a persisted record gave
    /// the device its scene.
    Discovered { restored: bool, commit: Commit },
    /// The observation was committed.
    Committed(Commit),
    /// Nothing changed: no mutation, no events.
    Unchanged,
    /// The device drifted from its expected state: this command, addressed to
    /// the observed device, restores it. The store keeps its record until the
    /// device confirms.
    Correct { device: Device },
}

/// A stored record whose kind does not match the observation: a device
/// never changes category.
#[derive(Debug)]
pub enum DeviceError {
    /// A sensor payload arrived for a key whose record is controllable.
    NotASensor { key: DeviceKey },
    /// A controllable payload arrived for a key whose record is a sensor.
    NotControllable { key: DeviceKey },
}

/// The command that brings a drifted device back to its expected state: the
/// expected state in the device's preferred color representation, without a
/// transition.
pub open spec fn corrected_device(
    incoming: Device,
    c: ControllableDevice,
    expected: ControllableState,
) -> Device {
    let state = ControllableState {
        transition_ms: None,
        ..expected.spec_color_to_device_preferred_mode(c.capabilities)
    };
    Device { data: DeviceData::Controllable(ControllableDevice { state, ..c }), ..incoming }
}

/// The observation with its pending echo recorded.
pub open spec fn echo_committed(incoming: Device, c: ControllableDevice) -> Device {
    Device {
        data: DeviceData::Controllable(
            ControllableDevice { managed: ManageKind::Partial { prev_change_committed: true }, ..c },
        ),
        ..incoming
    }
}

/// The outcome of reconciling an observed device with the store.
pub open spec fn reconciled(
    old: Devices,
    new: Devices,
    scenes: Scenes,
    incoming: Device,
    persisted: Option<Device>,
    r: Result<Reaction, DeviceError>,
) -> bool {
    let key = incoming.key();
    if !old@.contains_key(key) {
        match persisted {
            Some(p) => r matches Ok(Reaction::Discovered { restored, commit }) && restored
                && commit_post(
                old,
                new,
                scenes,
                Device { scene: p.scene, ..incoming },
                true,
                true,
                !incoming.spec_is_managed(),
                commit,
            ),
            None => r matches Ok(Reaction::Discovered { restored, commit }) && !restored
                && commit_post(old, new, scenes, incoming, true, false, false, commit),
        }
    } else {
        match incoming.data {
            DeviceData::Sensor(s) => match old@[key].data {
                DeviceData::Controllable(_) => r is Err && new == old,
                DeviceData::Sensor(prev) => if sensor_same(s, prev) {
                    r matches Ok(Reaction::Unchanged) && new == old
                } else {
                    r matches Ok(Reaction::Committed(c)) && commit_post(
                        old,
                        new,
                        scenes,
                        incoming,
                        false,
                        false,
                        false,
                        c,
                    )
                },
            },
            DeviceData::Controllable(ic) => if old@[key].data is Sensor {
                r is Err && new == old
            } else {
                match expected_state(old@, scenes, old@[key], false) {
                None => r matches Ok(Reaction::Committed(c)) && commit_post(
                    old,
                    new,
                    scenes,
                    incoming,
                    false,
                    false,
                    false,
                    c,
                ),
                Some(e) => if !incoming.spec_is_managed() {
                    r matches Ok(Reaction::Committed(c)) && commit_post(
                        old,
                        new,
                        scenes,
                        incoming,
                        false,
                        false,
                        true,
                        c,
                    )
                } else if device_state_matches(ic, e) {
                    if ic.managed == (ManageKind::Partial { prev_change_committed: false }) {
                        r matches Ok(Reaction::Committed(c)) && commit_post(
                            old,
                            new,
                            scenes,
                            echo_committed(incoming, ic),
                            false,
                            false,
                            true,
                            c,
                        )
                    } else {
                        r matches Ok(Reaction::Unchanged) && new == old
                    }
                } else {
                    r matches Ok(Reaction::Correct { device }) && device == corrected_device(
                        incoming,
                        ic,
                        e,
                    ) && new == old
                },
            }
            },
        }
    }
}

/// The authoritative device store and its name index.
pub struct Devices {
    state: DevicesState,
    keys_by_name: Table<DeviceNameRef, DeviceKey>,
}

/// The store after committing `device`, and what the commit reports.
pub open spec fn commit_post(
    old: Devices,
    new: Devices,
    scenes: Scenes,
    device: Device,
    set_scene: bool,
    skip_db: bool,
    skip_send: bool,
    c: Commit,
) -> bool {
    let key = device.key();
    let committed = committed_device(old@, scenes, device, set_scene);
    let changed = is_change(old@, committed);
    &&& new.wf()
    &&& c.device == committed
    &&& new@ == old@.insert(key, committed)
    &&& new.names() == if old@.contains_key(key) {
        old.names()
    } else {
        old.names().insert((device.integration_id@, device.name@), key)
    }
    &&& (c.update is Some) == changed
    &&& (c.update matches Some(u) ==> {
        &&& u.old_state.wf()
        &&& u.old_state@ == old@
        &&& u.new_state.wf()
        &&& u.new_state@ == new@
        &&& u.old == record_of(old@, key)
        &&& u.new == committed
    })
    &&& c.send == (!skip_send && !(committed.data is Sensor))
    &&& c.persist == (!skip_db && changed)
}

impl Devices {
    pub closed spec fn wf(&self) -> bool {
        &&& self.state.wf()
        &&& self.keys_by_name.wf()
        &&& forall|k: KeyView| #[trigger] self.state@.contains_key(k) ==> self.state@[k].key() == k
    }

    pub closed spec fn view(&self) -> Map<KeyView, Device> {
        self.state@
    }

    /// The name index: integration and name to device key.
    pub closed spec fn names(&self) -> Map<(Seq<char>, Seq<char>), KeyView> {
        Map::new(
            |n: (Seq<char>, Seq<char>)| self.keys_by_name@.contains_key(n),
            |n: (Seq<char>, Seq<char>)| self.keys_by_name@[n]@,
        )
    }

    pub closed spec fn spec_state(&self) -> DevicesState {
        self.state
    }

    pub fn new() -> (r: Devices)
        ensures
            r.wf(),
            r@ == Map::<KeyView, Device>::empty(),
            r.names() == Map::<(Seq<char>, Seq<char>), KeyView>::empty(),
    {
        let r = Devices { state: Table::new(), keys_by_name: Table::new() };
        assert(r.names() =~= Map::<(Seq<char>, Seq<char>), KeyView>::empty());
        r
    }

    pub fn get_state(&self) -> (r: &DevicesState)
        requires
            self.wf(),
        ensures
            r.wf(),
            r@ == self@,
            *r == self.spec_state(),
    {
        &self.state
    }

    pub fn get_device(&self, device_key: &DeviceKey) -> (r: Option<&Device>)
        requires
            self.wf(),
        ensures
            r == match record_of(self@, device_key@) {
                Some(d) => Some(&d),
                None => None::<&Device>,
            },
            r matches Some(d) ==> d.key() == device_key@,
    {
        self.state.get(device_key)
    }

    pub fn get_device_by_ref(&self, device_ref: &DeviceRef) -> (r: Option<&Device>)
        requires
            self.wf(),
        ensures
            r == match device_ref {
                DeviceRef::Id(k) => match record_of(self@, k@) {
                    Some(d) => Some(&d),
                    None => None::<&Device>,
                },
                DeviceRef::Name(n) => if self.names().contains_key(n@) {
                    match record_of(self@, self.names()[n@]) {
                        Some(d) => Some(&d),
                        None => None::<&Device>,
                    }
                } else {
                    None::<&Device>
                },
            },
    {
        match device_ref {
            DeviceRef::Id(k) => self.state.get(k),
            DeviceRef::Name(n) => match self.keys_by_name.get(n) {
                Some(k) => self.state.get(k),
                None => None,
            },
        }
    }

    /// Every record carries the key it is stored under.
    pub proof fn lemma_records_carry_their_keys(&self)
        requires
            self.wf(),
        ensures
            forall|k: KeyView| #[trigger] self@.contains_key(k) ==> self@[k].key() == k,
    {
    }

    /// The keys of all devices, in the store's order.
    pub fn device_keys(&self) -> (r: Vec<DeviceKey>)
        requires
            self.wf(),
        ensures
            forall|i: int, j: int| 0 <= i < j < r@.len() ==> (#[trigger] r@[i])@ != (#[trigger] r@[j])@,
            forall|i: int| 0 <= i < r@.len() ==> self@.contains_key((#[trigger] r@[i])@),
            forall|k: KeyView|
                #[trigger] self@.contains_key(k) ==> exists|i: int| 0 <= i < r@.len() && (#[trigger] r@[i])@ == k,
    {
        let mut r: Vec<DeviceKey> = Vec::new();
        let mut i: usize = 0;
        while i < self.state.len()
            invariant
                self.wf(),
                i <= self.state.entry_seq().len(),
                r@.len() == i,
                forall|j: int| 0 <= j < i ==> (#[trigger] r@[j])@ == self.state.entry_seq()[j].0@,
            decreases self.state.entry_seq().len() - i,
        {
            let (k, _) = self.state.entry_at(i);
            r.push(k.clone());
            i += 1;
        }
        proof {
            assert forall|a: int, b: int| 0 <= a < b < r@.len() implies (#[trigger] r@[a])@ != (
            #[trigger] r@[b])@ by {
                self.state.lemma_keys_distinct(a, b);
            }
            assert forall|a: int| 0 <= a < r@.len() implies self@.contains_key((#[trigger] r@[a])@) by {
                self.state.lemma_entry_in_view(a);
            }
            assert forall|k: KeyView| #[trigger] self@.contains_key(k) implies exists|a: int|
                0 <= a < r@.len() && (#[trigger] r@[a])@ == k by {
                self.state.lemma_view_in_entries(k);
                let a = choose|a: int|
                    0 <= a < self.state.entry_seq().len() && (#[trigger] self.state.entry_seq()[a]).0@
                        == k;
                assert(r@[a]@ == k);
            }
        }
        r
    }

    fn snapshot(&self) -> (r: DevicesState)
        requires
            self.wf(),
        ensures
            r.wf(),
            r@ == self@,
    {
        let r = self.state.copy();
        proof {
            assert forall|i: int| 0 <= i < r.entry_seq().len() implies r.entry_seq()[i]
                == self.state.entry_seq()[i] by {
                assert(cloned(self.state.entry_seq()[i].0, r.entry_seq()[i].0));
                assert(cloned(self.state.entry_seq()[i].1, r.entry_seq()[i].1));
            }
            assert(r.entry_seq() =~= self.state.entry_seq());
            r.lemma_same_entries(&self.state);
        }
        r
    }

    /// Expected state for the device: see `expected_state`.
    fn get_expected_state(&self, device: &Device, scenes: &Scenes, use_passed_state: bool) -> (r:
        Option<ControllableState>)
        requires
            self.wf(),
            scenes.wf(),
        ensures
            r == expected_state(self@, *scenes, *device, use_passed_state),
    {
        match &device.data {
            DeviceData::Sensor(_) => None,
            DeviceData::Controllable(_) => {
                let scene_state = match scenes.find_scene_device_state(device) {
                    Some(s) => Some(
                        if use_passed_state {
                            ControllableState { transition_ms: None, ..s }
                        } else {
                            s
                        },
                    ),
                    None => None,
                };
                let expected = match scene_state {
                    Some(s) => Some(s),
                    None => if use_passed_state {
                        device.get_controllable_state()
                    } else {
                        match self.state.get(&device.get_device_key()) {
                            Some(d) => d.get_controllable_state(),
                            None => device.get_controllable_state(),
                        }
                    },
                };
                match expected {
                    Some(s) => if s.power && s.brightness.is_none() {
                        Some(ControllableState { brightness: Some(UNIT), ..s })
                    } else {
                        Some(s)
                    },
                    None => None,
                }
            },
        }
    }

    /// Reconciles an observed device with the store. `persisted` is the
    /// persisted record for the device's key, looked up by the caller when
    /// the key is unknown (and ignored otherwise).
    pub fn handle_recv_device_state(
        &mut self,
        incoming: &Device,
        scenes: &Scenes,
        persisted: Option<Device>,
    ) -> (r: Result<Reaction, DeviceError>)
        requires
            old(self).wf(),
            scenes.wf(),
        ensures
            reconciled(*old(self), *final(self), *scenes, *incoming, persisted, r),
    {
        let key = incoming.get_device_key();
        let current = match self.state.get(&key) {
            Some(d) => Some(d.clone()),
            None => None,
        };
        let current = match current {
            None => {
                let commit = match persisted {
                    Some(p) => {
                        let device = incoming.set_scene(p.get_scene());
                        let skip_send = !device.is_managed();
                        let commit = self.set_device_state(&device, scenes, true, true, skip_send);
                        return Ok(Reaction::Discovered { restored: true, commit });
                    },
                    None => self.set_device_state(incoming, scenes, true, false, false),
                };
                return Ok(Reaction::Discovered { restored: false, commit });
            },
            Some(c) => c,
        };
        let expected = self.get_expected_state(&current, scenes, false);
        match &incoming.data {
            DeviceData::Sensor(incoming_sensor) => {
                let previous = match current.get_sensor_state() {
                    Some(p) => p,
                    None => {
                        return Err(DeviceError::NotASensor { key });
                    },
                };
                if cmp_sensor_states(incoming_sensor, previous) {
                    return Ok(Reaction::Unchanged);
                }
                let c = self.set_device_state(incoming, scenes, false, false, false);
                Ok(Reaction::Committed(c))
            },
            DeviceData::Controllable(_) if current.is_sensor() => {
                Err(DeviceError::NotControllable { key })
            },
            DeviceData::Controllable(incoming_state) => match expected {
                None => {
                    let c = self.set_device_state(incoming, scenes, false, false, false);
                    Ok(Reaction::Committed(c))
                },
                Some(expected_state) => {
                    if !incoming.is_managed() {
                        let c = self.set_device_state(incoming, scenes, false, false, true);
                        return Ok(Reaction::Committed(c));
                    }
                    if cmp_device_states(incoming_state, &expected_state) {
                        if incoming_state.managed == (ManageKind::Partial {
                            prev_change_committed: false,
                        }) {
                            let echoed = ControllableDevice {
                                managed: ManageKind::Partial { prev_change_committed: true },
                                ..*incoming_state
                            };
                            let device = Device {
                                id: incoming.id.clone(),
                                name: incoming.name.clone(),
                                integration_id: incoming.integration_id.clone(),
                                scene: incoming.get_scene(),
                                data: DeviceData::Controllable(echoed),
                            };
                            let c = self.set_device_state(&device, scenes, false, false, true);
                            return Ok(Reaction::Committed(c));
                        }
                        return Ok(Reaction::Unchanged);
                    }
                    let state = ControllableState {
                        transition_ms: None,
                        ..expected_state.color_to_device_preferred_mode(
                            &incoming_state.capabilities,
                        )
                    };
                    let device = Device {
                        id: incoming.id.clone(),
                        name: incoming.name.clone(),
                        integration_id: incoming.integration_id.clone(),
                        scene: incoming.get_scene(),
                        data: DeviceData::Controllable(ControllableDevice { state, ..*incoming_state }),
                    };
                    Ok(Reaction::Correct { device })
                },
            },
        }
    }

    /// Commits a device to the store: the single write path. The scene
    /// assignment is kept from the record unless `set_scene`; when the scene
    /// is set or the device is managed, its state becomes the expected state.
    /// Reports the notification, dispatch and persistence that are due.
    pub fn set_device_state(
        &mut self,
        device: &Device,
        scenes: &Scenes,
        set_scene: bool,
        skip_db: bool,
        skip_send: bool,
    ) -> (r: Commit)
        requires
            old(self).wf(),
            scenes.wf(),
        ensures
            commit_post(*old(self), *final(self), *scenes, *device, set_scene, skip_db, skip_send, r),
    {
        let ghost pre = *self;
        let old_states = self.snapshot();
        let key = device.get_device_key();
        let old = match self.state.get(&key) {
            Some(d) => Some(d.clone()),
            None => None,
        };
        if old.is_none() {
            let name_ref = DeviceNameRef {
                integration_id: device.integration_id.clone(),
                name: device.name.clone(),
            };
            self.keys_by_name.insert(name_ref, key.clone());
        }
        assert(self.state == pre.state);
        let mut device = device.clone();
        if !set_scene {
            if let Some(o) = &old {
                device = device.set_scene(o.get_scene());
            }
        }
        if set_scene || device.is_managed() {
            let expected = self.get_expected_state(&device, scenes, true);
            let capabilities = device.get_supported_color_modes();
            if let (Some(e), Some(c)) = (expected, capabilities) {
                device = device.set_controllable_state(e.color_to_device_preferred_mode(&c));
            }
        }
        self.state.insert(device.get_device_key(), device.clone());
        let changed = match &old {
            Some(o) => !o.same_device(&device),
            None => true,
        };
        let update = if changed {
            Some(
                StateUpdate {
                    old_state: old_states,
                    new_state: self.snapshot(),
                    old,
                    new: device.clone(),
                },
            )
        } else {
            None
        };
        let send = !skip_send && !device.is_sensor();
        let persist = !skip_db && changed;
        proof {
            assert(self.names() =~= if pre@.contains_key(key@) {
                pre.names()
            } else {
                pre.names().insert((device.integration_id@, device.name@), key@)
            });
        }
        Commit { device, update, send, persist }
    }
}

} // verus!
