//! The configuration that the controller is built from, and the bodies of
//! the requests that it answers.
use crate::device::Pump;
use crate::plant::PlantView;
use vstd::prelude::*;

verus! {

/// The whole configuration: the devices, the pump and the tick of the
/// scheduling loop in milliseconds.
pub struct Config {
    pub devices: Vec<DeviceConfig>,
    pub pump: Pump,
    pub tick: u64,
}

/// One device (valve) of the configuration.
pub struct DeviceConfig {
    pub device_id: u32,
    pub ip: String,
    pub name: String,
    pub pin: u8,
    pub cycle_sec: i64,
    pub duration_ms: i64,
    pub plants: Vec<PlantConfig>,
}

/// A request naming a device.
pub struct DeviceRequest {
    pub device_id: u32,
}

/// A request naming a GPIO pin.
pub struct DevicePin {
    pub device_gpio: u8,
}

/// One plant of the configuration.
pub struct PlantConfig {
    pub id: u32,
    pub name: String,
}

impl View for PlantConfig {
    type V = PlantView;

    open spec fn view(&self) -> PlantView {
        PlantView { id: self.id, name: self.name@ }
    }
}

/// What a device configuration says.
pub struct DeviceConfigView {
    pub device_id: u32,
    pub ip: Seq<char>,
    pub name: Seq<char>,
    pub pin: u8,
    pub cycle_sec: i64,
    pub duration_ms: i64,
    pub plants: Seq<PlantView>,
}

impl View for DeviceConfig {
    type V = DeviceConfigView;

    open spec fn view(&self) -> DeviceConfigView {
        DeviceConfigView {
            device_id: self.device_id,
            ip: self.ip@,
            name: self.name@,
            pin: self.pin,
            cycle_sec: self.cycle_sec,
            duration_ms: self.duration_ms,
            plants: self.plants@.map_values(|p: PlantConfig| p@),
        }
    }
}

impl DeviceConfigView {
    /// The cycle and the watering duration are within what `chrono` accepts.
    pub open spec fn durations_in_range(self) -> bool {
        &&& -(i64::MAX / 1000) <= self.cycle_sec <= i64::MAX / 1000
        &&& self.duration_ms != i64::MIN
    }
}

impl DeviceConfig {
    /// Whether the cycle and the watering duration are within what `chrono`
    /// accepts; a device cannot be built from the entry otherwise.
    pub fn durations_in_range(&self) -> (b: bool)
        ensures
            b == self@.durations_in_range(),
    {
        -(i64::MAX / 1000) <= self.cycle_sec && self.cycle_sec <= i64::MAX / 1000
            && self.duration_ms != i64::MIN
    }
}

impl Config {
    /// Whether every device entry can be built.
    pub fn durations_in_range(&self) -> (b: bool)
        ensures
            b == (forall|i: int|
                0 <= i < self.devices@.len() ==> #[trigger] self.devices@[i]@.durations_in_range()),
    {
        let mut i: usize = 0;
        while i < self.devices.len()
            invariant
                i <= self.devices@.len(),
                forall|j: int| 0 <= j < i ==> #[trigger] self.devices@[j]@.durations_in_range(),
            decreases self.devices.len() - i,
        {
            if !self.devices[i].durations_in_range() {
                return false;
            }
            i = i + 1;
        }
        true
    }
}

} // verus!
