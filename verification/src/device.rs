//! Devices (valves that water a group of plants) and the pump that feeds
//! them.
use crate::config::{DeviceConfig, DeviceConfigView};
use crate::json::{json_int_object, json_int_object_text};
use crate::plant::{Plant, PlantView, plant_views, clone_plants};
use crate::text::{decimal, push_decimal};
use crate::time::{Timestamp, utc_now, duration_from_seconds, duration_from_millis, whole_seconds, div_toward_zero};
use vstd::prelude::*;

verus! {

/// What a device is, as the scheduling rules see it.
pub struct DeviceView {
    pub id: u32,
    pub ip: Seq<char>,
    pub pin: u8,
    pub name: Seq<char>,
    pub cycle_ms: i64,
    pub duration_ms: i64,
    pub last_trigger: Timestamp,
    pub status: bool,
    pub plants: Seq<PlantView>,
}

/// A valve: where it is reached, which pin drives it, how often it waters
/// (`cycle_ms`) and for how long (`duration_ms`), when it last finished
/// watering, whether it is open, and the plants it waters.
#[derive(Debug)]
pub struct Device {
    pub id: u32,
    pub ip: String,
    pub pin: u8,
    pub name: String,
    pub cycle_ms: i64,
    pub duration_ms: i64,
    pub last_trigger: Timestamp,
    pub status: bool,
    pub plants: Vec<Plant>,
}

impl View for Device {
    type V = DeviceView;

    open spec fn view(&self) -> DeviceView {
        DeviceView {
            id: self.id,
            ip: self.ip@,
            pin: self.pin,
            name: self.name@,
            cycle_ms: self.cycle_ms,
            duration_ms: self.duration_ms,
            last_trigger: self.last_trigger,
            status: self.status,
            plants: plant_views(self.plants@),
        }
    }
}

/// The device that a configuration entry describes, with the given time as
/// its last trigger: the cycle is the configured seconds in milliseconds, the
/// device starts closed.
pub open spec fn device_from_config(c: DeviceConfigView, now: Timestamp) -> DeviceView {
    DeviceView {
        id: c.device_id,
        ip: c.ip,
        pin: c.pin,
        name: c.name,
        cycle_ms: (c.cycle_sec * 1000) as i64,
        duration_ms: c.duration_ms,
        last_trigger: now,
        status: false,
        plants: c.plants,
    }
}

/// A request that switches a valve on at its address: the URL, the name of
/// the field that carries the pin, the pin, and the number of whole seconds.
pub struct ValveRequest {
    pub url: String,
    pub pin_field: String,
    pub pin: u8,
    pub duration_secs: i64,
}

impl ValveRequest {
    /// The JSON body of the request: the pin under its field name, then the
    /// number of seconds under `duration`.
    pub fn body(&self) -> (text: String)
        ensures
            text@ == json_int_object_text(
                seq![(self.pin_field@, self.pin as int), ("duration"@, self.duration_secs as int)],
            ),
    {
        let mut fields: Vec<(String, i64)> = Vec::new();
        fields.push((self.pin_field.clone(), self.pin as i64));
        fields.push((String::from_str("duration"), self.duration_secs));
        proof {
            assert(crate::json::field_values(fields@) == seq![
                (self.pin_field@, self.pin as int),
                ("duration"@, self.duration_secs as int),
            ]);
        }
        json_int_object(fields)
    }
}

impl Device {
    /// A closed device whose last trigger is `now`.
    pub fn new_at(
        id: u32,
        ip: String,
        pin: u8,
        name: String,
        cycle_ms: i64,
        duration_ms: i64,
        target: Vec<Plant>,
        now: Timestamp,
    ) -> (d: Device)
        ensures
            d@ == (DeviceView {
                id,
                ip: ip@,
                pin,
                name: name@,
                cycle_ms,
                duration_ms,
                last_trigger: now,
                status: false,
                plants: plant_views(target@),
            }),
    {
        Device {
            id,
            ip,
            pin,
            name,
            cycle_ms,
            duration_ms,
            status: false,
            last_trigger: now,
            plants: target,
        }
    }

    /// A closed device whose last trigger is the time of the call.
    pub fn new(
        id: u32,
        ip: String,
        pin: u8,
        name: String,
        cycle_ms: i64,
        duration_ms: i64,
        target: Vec<Plant>,
    ) -> (d: Device)
        ensures
            d@ == (DeviceView {
                id,
                ip: ip@,
                pin,
                name: name@,
                cycle_ms,
                duration_ms,
                last_trigger: d.last_trigger,
                status: false,
                plants: plant_views(target@),
            }),
            d.last_trigger.secs >= 0,
    {
        let now = utc_now().instant();
        Device::new_at(id, ip, pin, name, cycle_ms, duration_ms, target, now)
    }

    /// The device that a configuration entry describes, last triggered at
    /// `now`.
    pub fn from_config_at(config: &DeviceConfig, now: Timestamp) -> (d: Device)
        requires
            config@.durations_in_range(),
        ensures
            d@ == device_from_config(config@, now),
            d.cycle_ms == config.cycle_sec * 1000,
            d.duration_ms == config.duration_ms,
            d.id == config.device_id,
            d.ip@ == config.ip@,
            d.pin == config.pin,
            d.name@ == config.name@,
            d@.plants == config@.plants,
            d.last_trigger == now,
            !d.status,
    {
        proof {
            crate::laws::law_device_from_config(config@, now);
        }
        let cycle = duration_from_seconds(config.cycle_sec);
        let duration = duration_from_millis(config.duration_ms);
        let mut target: Vec<Plant> = Vec::new();
        let mut i: usize = 0;
        while i < config.plants.len()
            invariant
                i <= config.plants@.len(),
                plant_views(target@) == config@.plants.take(i as int),
            decreases config.plants.len() - i,
        {
            target.push(Plant::from_config(&config.plants[i]));
            assert(config@.plants.take(i + 1) == config@.plants.take(i as int).push(
                config@.plants[i as int],
            ));
            assert(plant_views(target@) == config@.plants.take(i + 1));
            i = i + 1;
        }
        assert(config@.plants.take(config.plants.len() as int) == config@.plants);
        Device::new_at(
            config.device_id,
            config.ip.clone(),
            config.pin,
            config.name.clone(),
            cycle.unwrap(),
            duration.unwrap(),
            target,
            now,
        )
    }

    /// The device that a configuration entry describes, last triggered at the
    /// time of the call.
    pub fn from_config(config: &DeviceConfig) -> (d: Device)
        requires
            config@.durations_in_range(),
        ensures
            d@ == device_from_config(config@, d.last_trigger),
            d.cycle_ms == config.cycle_sec * 1000,
            d.duration_ms == config.duration_ms,
            d.id == config.device_id,
            d.pin == config.pin,
            !d.status,
            d.last_trigger.secs >= 0,
    {
        let now = utc_now().instant();
        Device::from_config_at(config, now)
    }

    /// Marks the device closed.
    pub fn deactivate(&mut self)
        ensures
            final(self)@ == (DeviceView { status: false, ..old(self)@ }),
    {
        self.status = false;
    }

    /// Marks the device open once its valve has accepted the activation, and
    /// returns the message that reports it.
    pub fn mark_activated(&mut self) -> (msg: String)
        ensures
            final(self)@ == (DeviceView { status: true, ..old(self)@ }),
            msg@ == "Device "@ + decimal(old(self).id as nat) + " activated"@,
    {
        self.status = true;
        let mut msg = String::from_str("Device ");
        push_decimal(&mut msg, self.id);
        msg.append(" activated");
        msg
    }

    /// The request that opens this device's valve for its watering duration.
    pub fn activation_request(&self) -> (r: ValveRequest)
        requires
            self.duration_ms != i64::MIN,
        ensures
            r.url@ == "http://"@ + self.ip@ + ":8080/activate_device"@,
            r.pin_field@ == "device_gpio"@,
            r.pin == self.pin,
            r.duration_secs == div_toward_zero(self.duration_ms as int, 1000),
    {
        let mut url = String::from_str("http://");
        url.append(self.ip.as_str());
        url.append(":8080/activate_device");
        ValveRequest {
            url,
            pin_field: String::from_str("device_gpio"),
            pin: self.pin,
            duration_secs: whole_seconds(self.duration_ms),
        }
    }
}

impl Clone for Device {
    fn clone(&self) -> (d: Device)
        ensures
            d@ == self@,
    {
        Device {
            id: self.id,
            ip: self.ip.clone(),
            pin: self.pin,
            name: self.name.clone(),
            cycle_ms: self.cycle_ms,
            duration_ms: self.duration_ms,
            last_trigger: self.last_trigger,
            status: self.status,
            plants: clone_plants(&self.plants),
        }
    }
}

/// What the pump is: its pin, its address and whether it runs.
pub struct PumpView {
    pub pin: u8,
    pub ip: Seq<char>,
    pub status: bool,
}

/// The pump that feeds every valve.
#[derive(Debug)]
pub struct Pump {
    pub pin: u8,
    pub ip: String,
    pub status: bool,
}

impl View for Pump {
    type V = PumpView;

    open spec fn view(&self) -> PumpView {
        PumpView { pin: self.pin, ip: self.ip@, status: self.status }
    }
}

impl Pump {
    /// The pump that a configuration describes, stopped.
    pub fn new(pump: Pump) -> (p: Pump)
        ensures
            p@ == (PumpView { status: false, ..pump@ }),
    {
        Pump { pin: pump.pin, ip: pump.ip, status: false }
    }

    /// Starts the pump.
    pub fn activate(&mut self)
        ensures
            final(self)@ == (PumpView { status: true, ..old(self)@ }),
    {
        if !self.status {
            self.status = true;
        }
    }

    /// Stops the pump.
    pub fn deactivate(&mut self)
        ensures
            final(self)@ == (PumpView { status: false, ..old(self)@ }),
    {
        if self.status {
            self.status = false;
        }
    }
}

impl Clone for Pump {
    fn clone(&self) -> (p: Pump)
        ensures
            p@ == self@,
    {
        Pump { pin: self.pin, ip: self.ip.clone(), status: self.status }
    }
}

} // verus!
