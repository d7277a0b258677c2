use crate::types::{
    preferred_opt, sensor_same, Capabilities, ControllableDevice, ControllableState, DeviceColor,
    SensorDevice, UNIT,
};
use vstd::prelude::*;

verus! {

/// Largest brightness difference still taken as equal (0.01).
pub const BRIGHTNESS_TOLERANCE: u64 = 100;

/// Largest difference per chromaticity axis still taken as equal (0.01).
pub const XY_TOLERANCE: u64 = 100;

/// Largest hue difference still taken as equal, on the device's scale.
pub const HUE_TOLERANCE: u64 = 1;

/// Largest saturation difference still taken as equal (0.01).
pub const SAT_TOLERANCE: u64 = 100;

/// Largest color temperature difference still taken as equal.
pub const CCT_TOLERANCE: u64 = 10;

pub open spec fn dist(a: u64, b: u64) -> int {
    if a >= b {
        a - b
    } else {
        b - a
    }
}

/// An absent brightness counts as full.
pub open spec fn brightness_or_full(b: Option<u64>) -> u64 {
    match b {
        Some(v) => v,
        None => UNIT,
    }
}

/// Component-wise closeness of two colors of the same representation.
pub open spec fn colors_close(a: Option<DeviceColor>, b: Option<DeviceColor>) -> bool {
    match (a, b) {
        (Some(DeviceColor::Xy(a)), Some(DeviceColor::Xy(b))) => dist(a.x, b.x) <= XY_TOLERANCE
            && dist(a.y, b.y) <= XY_TOLERANCE,
        (Some(DeviceColor::Hs(a)), Some(DeviceColor::Hs(b))) => dist(a.h, b.h) <= HUE_TOLERANCE
            && dist(a.s, b.s) <= SAT_TOLERANCE,
        (Some(DeviceColor::Ct(a)), Some(DeviceColor::Ct(b))) => dist(a.ct, b.ct) <= CCT_TOLERANCE,
        _ => false,
    }
}

/// Whether an observed color and brightness agree with the expected ones,
/// once the expected color is in the device's preferred representation.
pub open spec fn light_colors_match(
    caps: Capabilities,
    incoming: Option<DeviceColor>,
    incoming_bri: Option<u64>,
    expected: Option<DeviceColor>,
    expected_bri: Option<u64>,
) -> bool {
    let converted = preferred_opt(expected, caps);
    &&& dist(brightness_or_full(incoming_bri), brightness_or_full(expected_bri))
        <= BRIGHTNESS_TOLERANCE
    &&& (incoming == converted || colors_close(incoming, converted))
}

/// Whether a controllable device is in the given state, up to tolerances:
/// power must agree; two devices that are off agree whatever their color; a
/// device that reports no color agrees on power alone.
pub open spec fn device_state_matches(device: ControllableDevice, expected: ControllableState) -> bool {
    &&& device.state.power == expected.power
    &&& (!device.state.power || device.state.color is None || light_colors_match(
        device.capabilities,
        device.state.color,
        device.state.brightness,
        expected.color,
        expected.brightness,
    ))
}

fn abs_diff(a: u64, b: u64) -> (r: u64)
    ensures
        r == dist(a, b),
{
    if a >= b {
        a - b
    } else {
        b - a
    }
}

fn unwrap_brightness(b: &Option<u64>) -> (r: u64)
    ensures
        r == brightness_or_full(*b),
{
    match b {
        Some(v) => *v,
        None => UNIT,
    }
}

fn same_color(a: &Option<DeviceColor>, b: &Option<DeviceColor>) -> (r: bool)
    ensures
        r == (*a == *b),
{
    match (a, b) {
        (Some(x), Some(y)) => *x == *y,
        (None, None) => true,
        _ => false,
    }
}

/// Compares light colors in the representation the device prefers, allowing
/// slight deltas that come from rounding.
pub fn cmp_light_color(
    capabilities: &Capabilities,
    incoming: &Option<DeviceColor>,
    incoming_bri: &Option<u64>,
    expected: &Option<DeviceColor>,
    expected_bri: &Option<u64>,
) -> (r: bool)
    ensures
        r == light_colors_match(*capabilities, *incoming, *incoming_bri, *expected, *expected_bri),
{
    if abs_diff(unwrap_brightness(incoming_bri), unwrap_brightness(expected_bri))
        > BRIGHTNESS_TOLERANCE {
        return false;
    }
    let converted = crate::types::color_to_preferred(expected, capabilities);
    if same_color(incoming, &converted) {
        return true;
    }
    match (incoming, converted) {
        (Some(DeviceColor::Xy(a)), Some(DeviceColor::Xy(b))) => abs_diff(a.x, b.x) <= XY_TOLERANCE
            && abs_diff(a.y, b.y) <= XY_TOLERANCE,
        (Some(DeviceColor::Hs(a)), Some(DeviceColor::Hs(b))) => abs_diff(a.h, b.h) <= HUE_TOLERANCE
            && abs_diff(a.s, b.s) <= SAT_TOLERANCE,
        (Some(DeviceColor::Ct(a)), Some(DeviceColor::Ct(b))) => abs_diff(a.ct, b.ct)
            <= CCT_TOLERANCE,
        _ => false,
    }
}

/// Compares the state of a controllable device to a given state.
pub fn cmp_device_states(device: &ControllableDevice, expected: &ControllableState) -> (r: bool)
    ensures
        r == device_state_matches(*device, *expected),
{
    if device.state.power != expected.power {
        return false;
    }
    if !device.state.power && !expected.power {
        return true;
    }
    if device.state.color.is_some() {
        return cmp_light_color(
            &device.capabilities,
            &device.state.color,
            &device.state.brightness,
            &expected.color,
            &expected.brightness,
        );
    }
    true
}

/// Compares two sensor payloads exactly.
pub fn cmp_sensor_states(sensor: &SensorDevice, previous: &SensorDevice) -> (r: bool)
    ensures
        r == sensor_same(*sensor, *previous),
{
    match (sensor, previous) {
        (SensorDevice::Boolean { on: x }, SensorDevice::Boolean { on: y }) => *x == *y,
        (SensorDevice::Text { text: x }, SensorDevice::Text { text: y }) => *x == *y,
        (SensorDevice::Number { number: x }, SensorDevice::Number { number: y }) => *x == *y,
        (SensorDevice::Color(x), SensorDevice::Color(y)) => *x == *y,
        _ => false,
    }
}

/// A device agrees with its own state, so long as its color is in a
/// representation the device accepts (no conversion takes place).
pub proof fn lemma_state_matches_itself(device: ControllableDevice)
    requires
        match device.state.color {
            Some(c) => device.capabilities.accepts(c),
            None => true,
        },
    ensures
        device_state_matches(device, device.state),
{
}

/// Two states that are both off agree whatever their colors and brightness.
pub proof fn lemma_off_states_match(device: ControllableDevice, expected: ControllableState)
    requires
        !device.state.power,
        !expected.power,
    ensures
        device_state_matches(device, expected),
{
}

} // verus!
