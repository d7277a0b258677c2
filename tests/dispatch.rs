use homectl::devices::Devices;
use homectl::dispatch::{handle_message, Action, AppState, Effect, Message};
use homectl::scenes::Scenes;
use homectl::types::{
    Capabilities, ControllableDevice, ControllableState, Device, DeviceColor, DeviceData, DeviceId,
    IntegrationId, ManageKind, SensorDevice, Xy,
};

fn colored(brightness: u64) -> Device {
    let d = light(brightness, ManageKind::Full);
    match d.data {
        DeviceData::Controllable(c) => Device {
            data: DeviceData::Controllable(ControllableDevice {
                state: ControllableState { color: Some(DeviceColor::Xy(Xy { x: 3000, y: 3000 })), ..c.state },
                ..c
            }),
            ..d
        },
        DeviceData::Sensor(_) => d,
    }
}

fn light(brightness: u64, managed: ManageKind) -> Device {
    Device {
        id: DeviceId("lamp".to_string()),
        name: "Lamp".to_string(),
        integration_id: IntegrationId("hue".to_string()),
        scene: None,
        data: DeviceData::Controllable(ControllableDevice {
            state: ControllableState { power: true, color: None, brightness: Some(brightness), transition_ms: None },
            capabilities: Capabilities { xy: true, hs: true, ct: true, hsv: false, rgb: false },
            managed,
        }),
    }
}

fn app() -> AppState {
    AppState { devices: Devices::new(), scenes: Scenes::new() }
}

#[test]
fn observed_new_device_notifies_dispatches_and_persists() {
    let mut state = app();
    let effects = handle_message(&mut state, Message::RecvDeviceState { device: light(5000, ManageKind::Full) }, None).unwrap();
    assert_eq!(effects.len(), 3);
    assert!(matches!(&effects[0], Effect::Enqueue(Message::InternalStateUpdate(_))));
    assert!(matches!(&effects[1], Effect::Enqueue(Message::SendDeviceState { .. })));
    assert!(matches!(&effects[2], Effect::Persist(_)));
}

#[test]
fn unchanged_observation_has_no_effects() {
    let mut state = app();
    handle_message(&mut state, Message::RecvDeviceState { device: light(5000, ManageKind::Full) }, None).unwrap();
    let effects = handle_message(&mut state, Message::RecvDeviceState { device: light(5000, ManageKind::Full) }, None).unwrap();
    assert!(effects.is_empty());
}

#[test]
fn drift_enqueues_a_correction() {
    let mut state = app();
    handle_message(&mut state, Message::RecvDeviceState { device: colored(5000) }, None).unwrap();
    let effects = handle_message(&mut state, Message::RecvDeviceState { device: colored(2000) }, None).unwrap();
    assert_eq!(effects.len(), 1);
    match &effects[0] {
        Effect::Enqueue(Message::SendDeviceState { device }) => match &device.data {
            DeviceData::Controllable(c) => assert_eq!(c.state.brightness, Some(5000)),
            DeviceData::Sensor(_) => panic!("not controllable"),
        },
        other => panic!("unexpected {:?}", other),
    }
}

#[test]
fn sensor_on_controllable_key_is_reported() {
    let mut state = app();
    handle_message(&mut state, Message::RecvDeviceState { device: light(5000, ManageKind::Full) }, None).unwrap();
    let s = Device { data: DeviceData::Sensor(SensorDevice::Boolean { on: true }), ..light(1, ManageKind::Full) };
    assert!(handle_message(&mut state, Message::RecvDeviceState { device: s }, None).is_err());
}

#[test]
fn set_expected_state_without_send() {
    let mut state = app();
    let effects = handle_message(
        &mut state,
        Message::SetExpectedState { device: light(7000, ManageKind::Full), set_scene: false, skip_send: true },
        None,
    )
    .unwrap();
    assert_eq!(effects.len(), 2);
    assert!(matches!(&effects[0], Effect::Enqueue(Message::InternalStateUpdate(_))));
    assert!(matches!(&effects[1], Effect::Persist(_)));
}

#[test]
fn routing_of_outward_messages() {
    let mut state = app();
    let effects = handle_message(&mut state, Message::SendDeviceState { device: light(1, ManageKind::Full) }, None).unwrap();
    assert!(matches!(effects.as_slice(), [Effect::Dispatch(_)]));
    let effects = handle_message(&mut state, Message::WsBroadcastState, None).unwrap();
    assert!(matches!(effects.as_slice(), [Effect::Broadcast]));
    let effects = handle_message(
        &mut state,
        Message::Action(Action::Custom { integration_id: IntegrationId("mqtt".to_string()), payload: "{}".to_string() }),
        None,
    )
    .unwrap();
    assert!(matches!(effects.as_slice(), [Effect::RunIntegrationAction { .. }]));
    let effects = handle_message(&mut state, Message::Action(Action::ForceTriggerRoutine { routine_id: "r".to_string() }), None).unwrap();
    assert!(matches!(effects.as_slice(), [Effect::ForceTriggerRoutine { .. }]));
    let effects = handle_message(&mut state, Message::Action(Action::EvalExpr { expr: "x".to_string() }), None).unwrap();
    assert!(matches!(effects.as_slice(), [Effect::EvalExpr { .. }]));
}

#[test]
fn internal_update_invalidates_then_broadcasts() {
    let mut state = app();
    let effects = handle_message(&mut state, Message::RecvDeviceState { device: light(5000, ManageKind::Full) }, None).unwrap();
    let update = match effects.into_iter().next() {
        Some(Effect::Enqueue(Message::InternalStateUpdate(u))) => u,
        other => panic!("unexpected {:?}", other),
    };
    let effects = handle_message(&mut state, Message::InternalStateUpdate(update), None).unwrap();
    assert_eq!(effects.len(), 2);
    assert!(matches!(&effects[0], Effect::Invalidate(_)));
    assert!(matches!(&effects[1], Effect::Enqueue(Message::WsBroadcastState)));
}

#[test]
fn dim_action_commits_every_device() {
    let mut state = app();
    handle_message(&mut state, Message::RecvDeviceState { device: light(5000, ManageKind::Unmanaged) }, None).unwrap();
    let effects = handle_message(&mut state, Message::Action(Action::Dim { step: Some(2500) }), None).unwrap();
    // Notification, dispatch, persistence.
    assert_eq!(effects.len(), 3);
    let d = state.devices.get_device(&light(1, ManageKind::Full).get_device_key()).unwrap();
    match &d.data {
        DeviceData::Controllable(c) => assert_eq!(c.state.brightness, Some(2500)),
        DeviceData::Sensor(_) => panic!("not controllable"),
    }
}

#[test]
fn controllable_on_sensor_key_is_reported() {
    let mut state = app();
    let s = Device { data: DeviceData::Sensor(SensorDevice::Boolean { on: true }), ..light(1, ManageKind::Full) };
    handle_message(&mut state, Message::RecvDeviceState { device: s }, None).unwrap();
    assert!(handle_message(&mut state, Message::RecvDeviceState { device: light(5000, ManageKind::Full) }, None).is_err());
}
