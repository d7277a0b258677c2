use crate::table::SameKey;
use vstd::prelude::*;

verus! {

/// Brightness, saturation and chromaticity coordinates are fixed-point
/// fractions: this many units make up 1.0.
pub const UNIT: u64 = 10000;

/// Identifies one integration (a protocol adapter instance).
#[derive(Debug)]
pub struct IntegrationId(pub String);

/// Identifies a device within its integration.
#[derive(Debug)]
pub struct DeviceId(pub String);

/// Identifies a scene of the scene subsystem; the store only carries it.
#[derive(Debug)]
pub struct SceneId(pub String);

/// Canonical composite key of a device, globally unique.
#[derive(Debug)]
pub struct DeviceKey {
    pub integration_id: IntegrationId,
    pub device_id: DeviceId,
}

/// Lookup of a device by integration and human-readable name.
#[derive(Debug)]
pub struct DeviceNameRef {
    pub integration_id: IntegrationId,
    pub name: String,
}

/// A lookup handle: a direct key, or a name resolved through the name index.
#[derive(Debug)]
pub enum DeviceRef {
    Id(DeviceKey),
    Name(DeviceNameRef),
}

pub type KeyView = (Seq<char>, Seq<char>);

impl View for IntegrationId {
    type V = Seq<char>;

    open spec fn view(&self) -> Seq<char> {
        self.0@
    }
}

impl View for DeviceId {
    type V = Seq<char>;

    open spec fn view(&self) -> Seq<char> {
        self.0@
    }
}

impl View for SceneId {
    type V = Seq<char>;

    open spec fn view(&self) -> Seq<char> {
        self.0@
    }
}

impl View for DeviceKey {
    type V = KeyView;

    open spec fn view(&self) -> KeyView {
        (self.integration_id@, self.device_id@)
    }
}

impl View for DeviceNameRef {
    type V = (Seq<char>, Seq<char>);

    open spec fn view(&self) -> (Seq<char>, Seq<char>) {
        (self.integration_id@, self.name@)
    }
}

impl SameKey for DeviceKey {
    fn same_key(&self, other: &DeviceKey) -> (r: bool) {
        self.integration_id.0 == other.integration_id.0 && self.device_id.0 == other.device_id.0
    }
}

impl SameKey for DeviceNameRef {
    fn same_key(&self, other: &DeviceNameRef) -> (r: bool) {
        self.integration_id.0 == other.integration_id.0 && self.name == other.name
    }
}

impl Clone for DeviceNameRef {
    fn clone(&self) -> (r: Self)
        ensures
            r == *self,
    {
        DeviceNameRef { integration_id: self.integration_id.clone(), name: self.name.clone() }
    }
}

impl Clone for IntegrationId {
    fn clone(&self) -> (r: Self)
        ensures
            r == *self,
    {
        IntegrationId(self.0.clone())
    }
}

impl Clone for DeviceId {
    fn clone(&self) -> (r: Self)
        ensures
            r == *self,
    {
        DeviceId(self.0.clone())
    }
}

impl Clone for SceneId {
    fn clone(&self) -> (r: Self)
        ensures
            r == *self,
    {
        SceneId(self.0.clone())
    }
}

impl Clone for DeviceKey {
    fn clone(&self) -> (r: Self)
        ensures
            r == *self,
    {
        DeviceKey { integration_id: self.integration_id.clone(), device_id: self.device_id.clone() }
    }
}

pub fn same_scene(a: &Option<SceneId>, b: &Option<SceneId>) -> (r: bool)
    ensures
        r == (scene_view(*a) == scene_view(*b)),
{
    match (a, b) {
        (Some(x), Some(y)) => x.0 == y.0,
        (None, None) => true,
        _ => false,
    }
}

pub open spec fn scene_view(s: Option<SceneId>) -> Option<Seq<char>> {
    match s {
        Some(id) => Some(id@),
        None => None,
    }
}

/// Chromaticity coordinates, each in units of 1/`UNIT`.
#[derive(Clone, Copy, Debug, PartialEq, Eq, Structural)]
pub struct Xy {
    pub x: u64,
    pub y: u64,
}

/// Hue on the device's integer scale, saturation in units of 1/`UNIT`.
#[derive(Clone, Copy, Debug, PartialEq, Eq, Structural)]
pub struct Hs {
    pub h: u64,
    pub s: u64,
}

/// Correlated color temperature in device-native units.
#[derive(Clone, Copy, Debug, PartialEq, Eq, Structural)]
pub struct Ct {
    pub ct: u64,
}

/// Hue, saturation and value; saturation and value in units of 1/`UNIT`.
#[derive(Clone, Copy, Debug, PartialEq, Eq, Structural)]
pub struct Hsv {
    pub h: u64,
    pub s: u64,
    pub v: u64,
}

/// 8-bit red, green and blue channels.
#[derive(Clone, Copy, Debug, PartialEq, Eq, Structural)]
pub struct Rgb {
    pub r: u8,
    pub g: u8,
    pub b: u8,
}

/// A color in one of the representations that integrations speak.
#[derive(Clone, Copy, Debug, PartialEq, Eq, Structural)]
pub enum DeviceColor {
    Xy(Xy),
    Hs(Hs),
    Ct(Ct),
    Hsv(Hsv),
    Rgb(Rgb),
}

/// The color representations a device accepts.
#[derive(Clone, Copy, Debug, PartialEq, Eq, Structural)]
pub struct Capabilities {
    pub xy: bool,
    pub hs: bool,
    pub ct: bool,
    pub hsv: bool,
    pub rgb: bool,
}

impl Capabilities {
    pub open spec fn accepts(self, c: DeviceColor) -> bool {
        match c {
            DeviceColor::Xy(_) => self.xy,
            DeviceColor::Hs(_) => self.hs,
            DeviceColor::Ct(_) => self.ct,
            DeviceColor::Hsv(_) => self.hsv,
            DeviceColor::Rgb(_) => self.rgb,
        }
    }
}

/// The color in the representation the device prefers. Colors travel in the
/// representation that their source reported; moving between color spaces
/// is colorimetry that the store does not perform, so a color that the device
/// does not accept as it stands has no preferred form.
pub open spec fn preferred_color(c: DeviceColor, caps: Capabilities) -> Option<DeviceColor> {
    if caps.accepts(c) {
        Some(c)
    } else {
        None
    }
}

pub open spec fn preferred_opt(c: Option<DeviceColor>, caps: Capabilities) -> Option<DeviceColor> {
    match c {
        Some(c) => preferred_color(c, caps),
        None => None,
    }
}

impl DeviceColor {
    pub fn to_device_preferred_mode(&self, capabilities: &Capabilities) -> (r: Option<DeviceColor>)
        ensures
            r == preferred_color(*self, *capabilities),
    {
        let accepted = match self {
            DeviceColor::Xy(_) => capabilities.xy,
            DeviceColor::Hs(_) => capabilities.hs,
            DeviceColor::Ct(_) => capabilities.ct,
            DeviceColor::Hsv(_) => capabilities.hsv,
            DeviceColor::Rgb(_) => capabilities.rgb,
        };
        if accepted {
            Some(*self)
        } else {
            None
        }
    }
}

pub fn color_to_preferred(c: &Option<DeviceColor>, capabilities: &Capabilities) -> (r: Option<DeviceColor>)
    ensures
        r == preferred_opt(*c, *capabilities),
{
    match c {
        Some(c) => c.to_device_preferred_mode(capabilities),
        None => None,
    }
}

/// State of a controllable device (a light or a switch). Brightness is in
/// units of 1/`UNIT`, so `UNIT` is full brightness.
#[derive(Clone, Copy, Debug, PartialEq, Eq, Structural)]
pub struct ControllableState {
    pub power: bool,
    pub color: Option<DeviceColor>,
    pub brightness: Option<u64>,
    pub transition_ms: Option<u64>,
}

impl ControllableState {
    /// This state with its color put in the representation the device prefers.
    pub open spec fn spec_color_to_device_preferred_mode(self, caps: Capabilities) -> ControllableState {
        ControllableState { color: preferred_opt(self.color, caps), ..self }
    }

    pub fn color_to_device_preferred_mode(&self, capabilities: &Capabilities) -> (r: ControllableState)
        ensures
            r == self.spec_color_to_device_preferred_mode(*capabilities),
    {
        ControllableState { color: color_to_preferred(&self.color, capabilities), ..*self }
    }
}

/// Whether the store enforces the expected state on a device.
#[derive(Clone, Copy, Debug, PartialEq, Eq, Structural)]
pub enum ManageKind {
    Unmanaged,
    Full,
    /// The integration applies changes optimistically; the flag records
    /// whether the echo of the last commanded change has been seen.
    Partial { prev_change_committed: bool },
}

#[derive(Clone, Copy, Debug, PartialEq, Eq, Structural)]
pub struct ControllableDevice {
    pub state: ControllableState,
    pub capabilities: Capabilities,
    pub managed: ManageKind,
}

/// Read-only sensor payloads.
#[derive(Debug)]
pub enum SensorDevice {
    Boolean { on: bool },
    Text { text: String },
    Number { number: i64 },
    Color(ControllableState),
}

/// The payload of a device: controllable and sensor devices never turn into
/// one another.
#[derive(Debug)]
pub enum DeviceData {
    Controllable(ControllableDevice),
    Sensor(SensorDevice),
}

#[derive(Debug)]
pub struct Device {
    pub id: DeviceId,
    pub name: String,
    pub integration_id: IntegrationId,
    pub scene: Option<SceneId>,
    pub data: DeviceData,
}

impl Clone for SensorDevice {
    fn clone(&self) -> (r: Self)
        ensures
            r == *self,
    {
        match self {
            SensorDevice::Boolean { on } => SensorDevice::Boolean { on: *on },
            SensorDevice::Text { text } => SensorDevice::Text { text: text.clone() },
            SensorDevice::Number { number } => SensorDevice::Number { number: *number },
            SensorDevice::Color(s) => SensorDevice::Color(*s),
        }
    }
}

impl Clone for DeviceData {
    fn clone(&self) -> (r: Self)
        ensures
            r == *self,
    {
        match self {
            DeviceData::Controllable(c) => DeviceData::Controllable(*c),
            DeviceData::Sensor(s) => DeviceData::Sensor(s.clone()),
        }
    }
}

pub fn clone_scene(s: &Option<SceneId>) -> (r: Option<SceneId>)
    ensures
        r == *s,
{
    match s {
        Some(id) => Some(id.clone()),
        None => None,
    }
}

impl Clone for Device {
    fn clone(&self) -> (r: Self)
        ensures
            r == *self,
    {
        Device {
            id: self.id.clone(),
            name: self.name.clone(),
            integration_id: self.integration_id.clone(),
            scene: clone_scene(&self.scene),
            data: self.data.clone(),
        }
    }
}

/// Exact equality of sensor payloads, text compared by its characters.
pub open spec fn sensor_same(a: SensorDevice, b: SensorDevice) -> bool {
    match (a, b) {
        (SensorDevice::Boolean { on: x }, SensorDevice::Boolean { on: y }) => x == y,
        (SensorDevice::Text { text: x }, SensorDevice::Text { text: y }) => x@ == y@,
        (SensorDevice::Number { number: x }, SensorDevice::Number { number: y }) => x == y,
        (SensorDevice::Color(x), SensorDevice::Color(y)) => x == y,
        _ => false,
    }
}

pub open spec fn data_same(a: DeviceData, b: DeviceData) -> bool {
    match (a, b) {
        (DeviceData::Controllable(x), DeviceData::Controllable(y)) => x == y,
        (DeviceData::Sensor(x), DeviceData::Sensor(y)) => sensor_same(x, y),
        _ => false,
    }
}

impl Device {
    pub open spec fn key(self) -> KeyView {
        (self.integration_id@, self.id@)
    }

    /// Full structural equality, strings compared by their characters.
    pub open spec fn same_as(self, other: Device) -> bool {
        &&& self.id@ == other.id@
        &&& self.name@ == other.name@
        &&& self.integration_id@ == other.integration_id@
        &&& scene_view(self.scene) == scene_view(other.scene)
        &&& data_same(self.data, other.data)
    }

    pub open spec fn spec_is_managed(self) -> bool {
        match self.data {
            DeviceData::Controllable(c) => c.managed != ManageKind::Unmanaged,
            DeviceData::Sensor(_) => false,
        }
    }

    pub open spec fn spec_controllable_state(self) -> Option<ControllableState> {
        match self.data {
            DeviceData::Controllable(c) => Some(c.state),
            DeviceData::Sensor(_) => None,
        }
    }

    pub open spec fn spec_capabilities(self) -> Option<Capabilities> {
        match self.data {
            DeviceData::Controllable(c) => Some(c.capabilities),
            DeviceData::Sensor(_) => None,
        }
    }

    pub open spec fn spec_set_controllable_state(self, state: ControllableState) -> Device {
        match self.data {
            DeviceData::Controllable(c) => Device {
                data: DeviceData::Controllable(ControllableDevice { state, ..c }),
                ..self
            },
            DeviceData::Sensor(_) => self,
        }
    }

    /// Exact comparison with another device.
    pub fn same_device(&self, other: &Device) -> (r: bool)
        ensures
            r == self.same_as(*other),
    {
        let data_same = match (&self.data, &other.data) {
            (DeviceData::Controllable(x), DeviceData::Controllable(y)) => *x == *y,
            (DeviceData::Sensor(x), DeviceData::Sensor(y)) => crate::compare::cmp_sensor_states(x, y),
            _ => false,
        };
        self.id.0 == other.id.0 && self.name == other.name && self.integration_id.0
            == other.integration_id.0 && same_scene(&self.scene, &other.scene) && data_same
    }

    pub fn get_device_key(&self) -> (r: DeviceKey)
        ensures
            r@ == self.key(),
    {
        DeviceKey { integration_id: self.integration_id.clone(), device_id: self.id.clone() }
    }

    pub fn is_managed(&self) -> (r: bool)
        ensures
            r == self.spec_is_managed(),
    {
        match &self.data {
            DeviceData::Controllable(c) => match c.managed {
                ManageKind::Unmanaged => false,
                _ => true,
            },
            DeviceData::Sensor(_) => false,
        }
    }

    pub fn is_sensor(&self) -> (r: bool)
        ensures
            r == (self.data is Sensor),
    {
        match &self.data {
            DeviceData::Sensor(_) => true,
            DeviceData::Controllable(_) => false,
        }
    }

    pub fn get_controllable_state(&self) -> (r: Option<ControllableState>)
        ensures
            r == self.spec_controllable_state(),
    {
        match &self.data {
            DeviceData::Controllable(c) => Some(c.state),
            DeviceData::Sensor(_) => None,
        }
    }

    pub fn get_sensor_state(&self) -> (r: Option<&SensorDevice>)
        ensures
            r == match self.data {
                DeviceData::Sensor(s) => Some(&s),
                DeviceData::Controllable(_) => None::<&SensorDevice>,
            },
    {
        match &self.data {
            DeviceData::Sensor(s) => Some(s),
            DeviceData::Controllable(_) => None,
        }
    }

    pub fn get_supported_color_modes(&self) -> (r: Option<Capabilities>)
        ensures
            r == self.spec_capabilities(),
    {
        match &self.data {
            DeviceData::Controllable(c) => Some(c.capabilities),
            DeviceData::Sensor(_) => None,
        }
    }

    pub fn get_scene(&self) -> (r: Option<SceneId>)
        ensures
            r == self.scene,
    {
        clone_scene(&self.scene)
    }

    /// This device with the given scene assignment.
    pub fn set_scene(&self, scene: Option<SceneId>) -> (r: Device)
        ensures
            r == (Device { scene, ..*self }),
    {
        Device {
            id: self.id.clone(),
            name: self.name.clone(),
            integration_id: self.integration_id.clone(),
            scene,
            data: self.data.clone(),
        }
    }

    /// This device with its controllable state replaced; a sensor is returned
    /// unchanged.
    pub fn set_controllable_state(&self, state: ControllableState) -> (r: Device)
        ensures
            r == self.spec_set_controllable_state(state),
    {
        let data = match &self.data {
            DeviceData::Controllable(c) => DeviceData::Controllable(ControllableDevice { state, ..*c }),
            DeviceData::Sensor(s) => DeviceData::Sensor(s.clone()),
        };
        Device {
            id: self.id.clone(),
            name: self.name.clone(),
            integration_id: self.integration_id.clone(),
            scene: clone_scene(&self.scene),
            data,
        }
    }
}

} // verus!
