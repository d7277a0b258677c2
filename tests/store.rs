use homectl::actions::SceneDescriptor;
use homectl::devices::{DeviceError, Devices, Reaction};
use homectl::scenes::Scenes;
use homectl::types::{
    Capabilities, ControllableDevice, ControllableState, Ct, Device, DeviceColor, DeviceData,
    DeviceId, DeviceKey, DeviceNameRef, DeviceRef, Hs, IntegrationId, ManageKind, SceneId,
    SensorDevice, UNIT,
};

fn caps() -> Capabilities {
    Capabilities { xy: true, hs: true, ct: true, hsv: false, rgb: false }
}

fn state(power: bool, brightness: Option<u64>) -> ControllableState {
    ControllableState { power, color: None, brightness, transition_ms: None }
}

fn light(id: &str, s: ControllableState, managed: ManageKind) -> Device {
    Device {
        id: DeviceId(id.to_string()),
        name: format!("Light {}", id),
        integration_id: IntegrationId("hue".to_string()),
        scene: None,
        data: DeviceData::Controllable(ControllableDevice { state: s, capabilities: caps(), managed }),
    }
}

fn sensor(id: &str, s: SensorDevice) -> Device {
    Device {
        id: DeviceId(id.to_string()),
        name: format!("Sensor {}", id),
        integration_id: IntegrationId("mqtt".to_string()),
        scene: None,
        data: DeviceData::Sensor(s),
    }
}

fn key(integration: &str, id: &str) -> DeviceKey {
    DeviceKey { integration_id: IntegrationId(integration.to_string()), device_id: DeviceId(id.to_string()) }
}

fn scene(s: &str) -> Option<SceneId> {
    Some(SceneId(s.to_string()))
}

fn ctrl(d: &Device) -> ControllableDevice {
    match &d.data {
        DeviceData::Controllable(c) => *c,
        DeviceData::Sensor(_) => panic!("not controllable"),
    }
}

#[test]
fn discovery_creates_record_and_dispatches() {
    let mut devices = Devices::new();
    let scenes = Scenes::new();
    let d = light("1", state(true, Some(4000)), ManageKind::Full);
    match devices.handle_recv_device_state(&d, &scenes, None).unwrap() {
        Reaction::Discovered { restored, commit } => {
            assert!(!restored);
            assert!(commit.update.is_some());
            assert!(commit.send);
            assert!(commit.persist);
            let u = commit.update.unwrap();
            assert!(u.old.is_none());
            assert_eq!(u.old_state.len(), 0);
            assert_eq!(u.new_state.len(), 1);
        }
        other => panic!("unexpected {:?}", other),
    }
    let stored = devices.get_device(&key("hue", "1")).unwrap();
    assert!(stored.same_device(&d));
}

#[test]
fn second_identical_observation_changes_nothing() {
    let mut devices = Devices::new();
    let scenes = Scenes::new();
    let d = light("1", state(true, Some(4000)), ManageKind::Full);
    devices.handle_recv_device_state(&d, &scenes, None).unwrap();
    assert!(matches!(devices.handle_recv_device_state(&d, &scenes, None).unwrap(), Reaction::Unchanged));

    let unmanaged = light("2", state(false, None), ManageKind::Unmanaged);
    devices.handle_recv_device_state(&unmanaged, &scenes, None).unwrap();
    match devices.handle_recv_device_state(&unmanaged, &scenes, None).unwrap() {
        Reaction::Committed(c) => {
            assert!(c.update.is_none());
            assert!(!c.persist);
            assert!(!c.send);
        }
        other => panic!("unexpected {:?}", other),
    }
}

#[test]
fn discovered_sensor_is_not_dispatched() {
    let mut devices = Devices::new();
    let scenes = Scenes::new();
    let s = sensor("door", SensorDevice::Boolean { on: true });
    match devices.handle_recv_device_state(&s, &scenes, None).unwrap() {
        Reaction::Discovered { commit, .. } => {
            assert!(!commit.send);
            assert!(commit.persist);
        }
        other => panic!("unexpected {:?}", other),
    }
}

#[test]
fn restored_scene_comes_from_persisted_record() {
    let mut devices = Devices::new();
    let mut scenes = Scenes::new();
    scenes.set_scene_device_state(SceneId("evening".to_string()), key("hue", "1"), state(true, Some(2500)));
    let d = light("1", state(false, None), ManageKind::Full);
    let mut persisted = light("1", state(false, None), ManageKind::Full);
    persisted.scene = scene("evening");
    match devices.handle_recv_device_state(&d, &scenes, Some(persisted)).unwrap() {
        Reaction::Discovered { restored, commit } => {
            assert!(restored);
            assert!(!commit.persist);
            assert!(commit.send);
            assert_eq!(commit.device.scene.as_ref().unwrap().0, "evening");
            assert_eq!(ctrl(&commit.device).state, state(true, Some(2500)));
        }
        other => panic!("unexpected {:?}", other),
    }
}

#[test]
fn commit_twice_is_idempotent() {
    let mut devices = Devices::new();
    let scenes = Scenes::new();
    let d = light("1", state(true, None), ManageKind::Full);
    let first = devices.set_device_state(&d, &scenes, false, false, false);
    assert!(first.update.is_some());
    // An on state without brightness is committed at full brightness.
    assert_eq!(ctrl(&first.device).state.brightness, Some(UNIT));
    let second = devices.set_device_state(&d, &scenes, false, false, false);
    assert!(second.update.is_none());
    assert!(!second.persist);
    assert!(second.send);
    assert!(second.device.same_device(&first.device));
}

#[test]
fn scene_assignment_is_sticky() {
    let mut devices = Devices::new();
    let scenes = Scenes::new();
    let mut d = light("1", state(true, Some(5000)), ManageKind::Unmanaged);
    d.scene = scene("movie");
    devices.set_device_state(&d, &scenes, true, false, false);
    let mut other = light("1", state(true, Some(6000)), ManageKind::Unmanaged);
    other.scene = scene("reading");
    let c = devices.set_device_state(&other, &scenes, false, false, false);
    assert_eq!(c.device.scene.as_ref().unwrap().0, "movie");
    let none = light("1", state(true, Some(6000)), ManageKind::Unmanaged);
    let c = devices.set_device_state(&none, &scenes, false, false, false);
    assert_eq!(c.device.scene.as_ref().unwrap().0, "movie");
    let stored = devices.get_device(&key("hue", "1")).unwrap();
    assert_eq!(stored.scene.as_ref().unwrap().0, "movie");
}

#[test]
fn drift_is_corrected_without_touching_the_store() {
    let mut devices = Devices::new();
    let scenes = Scenes::new();
    let mut d = light("1", state(true, Some(UNIT)), ManageKind::Full);
    if let DeviceData::Controllable(c) = &mut d.data {
        c.state.transition_ms = Some(400);
    }
    devices.set_device_state(&d, &scenes, false, true, true);
    let drifted = light("1", state(true, Some(5000)), ManageKind::Full);
    let drifted = Device { data: DeviceData::Controllable(ControllableDevice {
        state: ControllableState { color: Some(DeviceColor::Ct(Ct { ct: 300 })), ..ctrl(&drifted).state },
        ..ctrl(&drifted)
    }), ..drifted };
    match devices.handle_recv_device_state(&drifted, &scenes, None).unwrap() {
        Reaction::Correct { device } => {
            // Expected state, without the transition.
            assert_eq!(ctrl(&device).state, state(true, Some(UNIT)));
            assert_eq!(device.id.0, "1");
        }
        other => panic!("unexpected {:?}", other),
    }
    let stored = devices.get_device(&key("hue", "1")).unwrap();
    assert_eq!(ctrl(stored).state.brightness, Some(UNIT));
    assert_eq!(ctrl(stored).state.transition_ms, Some(400));
}

#[test]
fn drift_correction_uses_the_scene_state() {
    let mut devices = Devices::new();
    let mut scenes = Scenes::new();
    let target = ControllableState {
        power: true,
        color: Some(DeviceColor::Hs(Hs { h: 200, s: 8000 })),
        brightness: None,
        transition_ms: Some(1000),
    };
    scenes.set_scene_device_state(SceneId("night".to_string()), key("hue", "1"), target);
    let mut d = light("1", state(false, None), ManageKind::Full);
    d.scene = scene("night");
    devices.set_device_state(&d, &scenes, true, false, false);
    let observed = light("1", state(false, None), ManageKind::Full);
    match devices.handle_recv_device_state(&observed, &scenes, None).unwrap() {
        Reaction::Correct { device } => {
            let s = ctrl(&device).state;
            assert!(s.power);
            assert_eq!(s.brightness, Some(UNIT));
            assert_eq!(s.color, Some(DeviceColor::Hs(Hs { h: 200, s: 8000 })));
            assert_eq!(s.transition_ms, None);
        }
        other => panic!("unexpected {:?}", other),
    }
}

#[test]
fn partial_echo_is_recorded_without_sending() {
    let mut devices = Devices::new();
    let scenes = Scenes::new();
    let pending = ManageKind::Partial { prev_change_committed: false };
    let d = light("1", state(true, Some(3000)), pending);
    devices.set_device_state(&d, &scenes, false, false, true);
    let echo = light("1", state(true, Some(3050)), pending);
    match devices.handle_recv_device_state(&echo, &scenes, None).unwrap() {
        Reaction::Committed(c) => {
            assert!(!c.send);
            assert_eq!(ctrl(&c.device).managed, ManageKind::Partial { prev_change_committed: true });
        }
        other => panic!("unexpected {:?}", other),
    }
    let stored = devices.get_device(&key("hue", "1")).unwrap();
    assert_eq!(ctrl(stored).managed, ManageKind::Partial { prev_change_committed: true });
    // Once committed, a matching observation changes nothing.
    let again = light("1", state(true, Some(3050)), ManageKind::Partial { prev_change_committed: true });
    assert!(matches!(devices.handle_recv_device_state(&again, &scenes, None).unwrap(), Reaction::Unchanged));
}

#[test]
fn unmanaged_device_is_tracked_verbatim() {
    let mut devices = Devices::new();
    let scenes = Scenes::new();
    let d = light("1", state(true, Some(3000)), ManageKind::Unmanaged);
    devices.handle_recv_device_state(&d, &scenes, None).unwrap();
    let changed = light("1", state(true, Some(9000)), ManageKind::Unmanaged);
    match devices.handle_recv_device_state(&changed, &scenes, None).unwrap() {
        Reaction::Committed(c) => {
            assert!(c.update.is_some());
            assert!(!c.send);
            assert!(c.persist);
            assert_eq!(ctrl(&c.device).state.brightness, Some(9000));
        }
        other => panic!("unexpected {:?}", other),
    }
}

#[test]
fn sensor_payload_on_controllable_record_is_an_error() {
    let mut devices = Devices::new();
    let scenes = Scenes::new();
    let d = light("1", state(true, Some(3000)), ManageKind::Full);
    devices.handle_recv_device_state(&d, &scenes, None).unwrap();
    let s = Device { data: DeviceData::Sensor(SensorDevice::Number { number: 3 }), ..light("1", state(true, None), ManageKind::Full) };
    match devices.handle_recv_device_state(&s, &scenes, None) {
        Err(DeviceError::NotASensor { key }) => assert_eq!(key.device_id.0, "1"),
        other => panic!("unexpected {:?}", other),
    }
}

#[test]
fn unchanged_sensor_update_is_ignored() {
    let mut devices = Devices::new();
    let scenes = Scenes::new();
    let s = sensor("t", SensorDevice::Text { text: "21.5".to_string() });
    devices.handle_recv_device_state(&s, &scenes, None).unwrap();
    assert!(matches!(devices.handle_recv_device_state(&s, &scenes, None).unwrap(), Reaction::Unchanged));
    let s2 = sensor("t", SensorDevice::Text { text: "22.0".to_string() });
    match devices.handle_recv_device_state(&s2, &scenes, None).unwrap() {
        Reaction::Committed(c) => {
            assert!(c.update.is_some());
            assert!(!c.send);
        }
        other => panic!("unexpected {:?}", other),
    }
}

#[test]
fn lookup_by_key_and_by_name() {
    let mut devices = Devices::new();
    let scenes = Scenes::new();
    devices.set_device_state(&light("7", state(false, None), ManageKind::Full), &scenes, false, false, false);
    let by_id = devices.get_device_by_ref(&DeviceRef::Id(key("hue", "7"))).unwrap();
    assert_eq!(by_id.name, "Light 7");
    let name_ref = DeviceNameRef { integration_id: IntegrationId("hue".to_string()), name: "Light 7".to_string() };
    let by_name = devices.get_device_by_ref(&DeviceRef::Name(name_ref)).unwrap();
    assert_eq!(by_name.id.0, "7");
    let missing = DeviceNameRef { integration_id: IntegrationId("hue".to_string()), name: "Light 8".to_string() };
    assert!(devices.get_device_by_ref(&DeviceRef::Name(missing)).is_none());
    assert!(devices.get_device(&key("mqtt", "7")).is_none());
}

#[test]
fn activating_a_scene_sets_configured_devices() {
    let mut devices = Devices::new();
    let mut scenes = Scenes::new();
    scenes.set_scene_device_state(SceneId("bright".to_string()), key("hue", "1"), state(true, Some(9000)));
    devices.set_device_state(&light("1", state(false, None), ManageKind::Full), &scenes, false, false, false);
    devices.set_device_state(&light("2", state(false, None), ManageKind::Full), &scenes, false, false, false);
    let commits = devices.activate_scene(&SceneId("bright".to_string()), &None, &scenes);
    assert_eq!(commits.len(), 1);
    let one = devices.get_device(&key("hue", "1")).unwrap();
    assert_eq!(one.scene.as_ref().unwrap().0, "bright");
    assert_eq!(ctrl(one).state, state(true, Some(9000)));
    let two = devices.get_device(&key("hue", "2")).unwrap();
    assert!(two.scene.is_none());
    // A device list that leaves the device out reaches nothing.
    let commits = devices.activate_scene(&SceneId("bright".to_string()), &Some(vec![key("hue", "2")]), &scenes);
    assert_eq!(commits.len(), 0);
}

#[test]
fn dimming_lowers_brightness_and_keeps_scenes() {
    let mut devices = Devices::new();
    let scenes = Scenes::new();
    let mut d = light("1", state(true, Some(5000)), ManageKind::Unmanaged);
    d.scene = scene("movie");
    devices.set_device_state(&d, &scenes, true, false, false);
    devices.set_device_state(&light("2", state(true, Some(500)), ManageKind::Unmanaged), &scenes, false, false, false);
    let commits = devices.dim(None, &scenes);
    assert_eq!(commits.len(), 2);
    let one = devices.get_device(&key("hue", "1")).unwrap();
    assert_eq!(ctrl(one).state.brightness, Some(4000));
    assert_eq!(one.scene.as_ref().unwrap().0, "movie");
    let two = devices.get_device(&key("hue", "2")).unwrap();
    assert_eq!(ctrl(two).state.brightness, Some(0));
    devices.dim(Some(-20000), &scenes);
    let one = devices.get_device(&key("hue", "1")).unwrap();
    assert_eq!(ctrl(one).state.brightness, Some(UNIT));
}

#[test]
fn cycling_scenes_moves_to_the_next_one() {
    let mut devices = Devices::new();
    let mut scenes = Scenes::new();
    scenes.set_scene_device_state(SceneId("a".to_string()), key("hue", "1"), state(true, Some(2000)));
    scenes.set_scene_device_state(SceneId("b".to_string()), key("hue", "1"), state(true, Some(8000)));
    devices.set_device_state(&light("1", state(false, None), ManageKind::Full), &scenes, false, false, false);
    let sds = vec![
        SceneDescriptor { scene_id: SceneId("a".to_string()), device_keys: None },
        SceneDescriptor { scene_id: SceneId("b".to_string()), device_keys: None },
    ];
    // No scene is active: the first one is activated.
    assert!(devices.cycle_scenes(&sds, false, &scenes).is_some());
    assert_eq!(devices.get_device(&key("hue", "1")).unwrap().scene.as_ref().unwrap().0, "a");
    devices.cycle_scenes(&sds, false, &scenes);
    assert_eq!(devices.get_device(&key("hue", "1")).unwrap().scene.as_ref().unwrap().0, "b");
    assert_eq!(ctrl(devices.get_device(&key("hue", "1")).unwrap()).state.brightness, Some(8000));
    // Past the end: with nowrap it stays on the last scene, else it wraps.
    devices.cycle_scenes(&sds, true, &scenes);
    assert_eq!(devices.get_device(&key("hue", "1")).unwrap().scene.as_ref().unwrap().0, "b");
    devices.cycle_scenes(&sds, false, &scenes);
    assert_eq!(devices.get_device(&key("hue", "1")).unwrap().scene.as_ref().unwrap().0, "a");
    assert!(devices.cycle_scenes(&Vec::new(), false, &scenes).is_none());
}

#[test]
fn controllable_payload_on_sensor_record_is_an_error() {
    let mut devices = Devices::new();
    let scenes = Scenes::new();
    let s = sensor("1", SensorDevice::Boolean { on: false });
    devices.handle_recv_device_state(&s, &scenes, None).unwrap();
    let l = Device { data: light("1", state(true, Some(3000)), ManageKind::Full).data, ..sensor("1", SensorDevice::Boolean { on: false }) };
    match devices.handle_recv_device_state(&l, &scenes, None) {
        Err(DeviceError::NotControllable { key }) => assert_eq!(key.device_id.0, "1"),
        other => panic!("unexpected {:?}", other),
    }
    // The record stays a sensor.
    let stored = devices.get_device(&key("mqtt", "1")).unwrap();
    assert!(matches!(stored.data, DeviceData::Sensor(SensorDevice::Boolean { on: false })));
}

#[test]
fn scene_activation_commits_notify_send_and_persist() {
    let mut devices = Devices::new();
    let mut scenes = Scenes::new();
    scenes.set_scene_device_state(SceneId("warm".to_string()), key("hue", "1"), state(true, Some(4000)));
    scenes.set_scene_device_state(SceneId("warm".to_string()), key("hue", "2"), state(false, None));
    devices.set_device_state(&light("1", state(false, None), ManageKind::Full), &scenes, false, false, false);
    let mut already = light("2", state(false, None), ManageKind::Full);
    already.scene = scene("warm");
    devices.set_device_state(&already, &scenes, true, false, false);
    let commits = devices.activate_scene(&SceneId("warm".to_string()), &None, &scenes);
    assert_eq!(commits.len(), 2);
    for c in &commits {
        assert!(c.send);
        if c.device.id.0 == "1" {
            assert!(c.update.is_some());
            assert!(c.persist);
        } else {
            // Already in the scene: nothing changed, nothing to persist.
            assert!(c.update.is_none());
            assert!(!c.persist);
        }
    }
}
