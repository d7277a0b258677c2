use crate::table::{SameKey, Table};
use crate::types::{ControllableState, Device, DeviceKey, KeyView, SceneId};
use vstd::prelude::*;

verus! {

/// A device's place in a scene.
pub struct SceneDeviceKey {
    pub scene_id: SceneId,
    pub device_key: DeviceKey,
}

impl View for SceneDeviceKey {
    type V = (Seq<char>, KeyView);

    open spec fn view(&self) -> (Seq<char>, KeyView) {
        (self.scene_id@, self.device_key@)
    }
}

impl SameKey for SceneDeviceKey {
    fn same_key(&self, other: &SceneDeviceKey) -> (r: bool) {
        self.scene_id.0 == other.scene_id.0 && self.device_key.same_key(&other.device_key)
    }
}

/// The states that scenes give their devices: the scene lookup that the
/// store consults for expected states.
pub struct Scenes {
    states: Table<SceneDeviceKey, ControllableState>,
}

impl Scenes {
    pub closed spec fn wf(&self) -> bool {
        self.states.wf()
    }

    pub closed spec fn view(&self) -> Map<(Seq<char>, KeyView), ControllableState> {
        self.states@
    }

    /// The state the device's assigned scene gives it, if any.
    pub open spec fn scene_state_for(&self, device: Device) -> Option<ControllableState> {
        match device.scene {
            Some(s) => if self@.contains_key((s@, device.key())) {
                Some(self@[(s@, device.key())])
            } else {
                None
            },
            None => None,
        }
    }

    /// Whether the scene gives a state to the device with this key.
    pub open spec fn configures(&self, scene: Seq<char>, key: KeyView) -> bool {
        self@.contains_key((scene, key))
    }

    pub fn new() -> (r: Scenes)
        ensures
            r.wf(),
            r@ == Map::<(Seq<char>, KeyView), ControllableState>::empty(),
    {
        Scenes { states: Table::new() }
    }

    /// Sets the state that a scene gives a device.
    pub fn set_scene_device_state(
        &mut self,
        scene_id: SceneId,
        device_key: DeviceKey,
        state: ControllableState,
    )
        requires
            old(self).wf(),
        ensures
            final(self).wf(),
            final(self)@ == old(self)@.insert((scene_id@, device_key@), state),
    {
        self.states.insert(SceneDeviceKey { scene_id, device_key }, state);
    }

    /// Looks up the state that the device's scene gives it.
    pub fn find_scene_device_state(&self, device: &Device) -> (r: Option<ControllableState>)
        requires
            self.wf(),
        ensures
            r == self.scene_state_for(*device),
    {
        match &device.scene {
            Some(s) => {
                let k = SceneDeviceKey { scene_id: s.clone(), device_key: device.get_device_key() };
                match self.states.get(&k) {
                    Some(st) => Some(*st),
                    None => None,
                }
            },
            None => None,
        }
    }

    /// Whether the scene gives a state to the device with this key.
    pub fn scene_configures(&self, scene_id: &SceneId, device_key: &DeviceKey) -> (r: bool)
        requires
            self.wf(),
        ensures
            r == self.configures(scene_id@, device_key@),
    {
        let k = SceneDeviceKey { scene_id: scene_id.clone(), device_key: device_key.clone() };
        self.states.get(&k).is_some()
    }
}

} // verus!
