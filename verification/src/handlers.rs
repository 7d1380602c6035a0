//! What the controller answers to the requests it serves, and how it
//! changes on them.
use crate::config::{DeviceRequest, PlantConfig};
use crate::listener::completion_channel;
use crate::system::{System, first_with_id};
use tokio::sync::oneshot::Receiver;
use vstd::prelude::*;

verus! {

/// The status of an answer.
#[derive(Clone, Copy, Debug, PartialEq, Eq, Structural)]
pub enum Status {
    Success,
    Created,
    Accepted,
    NotFound,
}

impl Status {
    /// The HTTP status code.
    pub open spec fn spec_code(self) -> u16 {
        match self {
            Status::Success => 200,
            Status::Created => 201,
            Status::Accepted => 202,
            Status::NotFound => 404,
        }
    }

    /// The HTTP status code.
    pub fn code(&self) -> (c: u16)
        ensures
            c == self.spec_code(),
    {
        match self {
            Status::Success => 200,
            Status::Created => 201,
            Status::Accepted => 202,
            Status::NotFound => 404,
        }
    }
}

/// The ways in which a request can be refused.
#[derive(Clone, Copy, Debug, PartialEq, Eq, Structural)]
pub enum MyError {
    InvalidRequest,
    InternalError,
}

impl MyError {
    /// The text that describes the error.
    pub fn message(&self) -> (s: &'static str)
        ensures
            s@ == (match self {
                MyError::InvalidRequest => "Invalid Request"@,
                MyError::InternalError => "Internal Server Error"@,
            }),
    {
        match self {
            MyError::InvalidRequest => "Invalid Request",
            MyError::InternalError => "Internal Server Error",
        }
    }
}

/// The answer to a refused request: the status code and the text for an
/// error of this library, nothing for any other refusal (which is passed on).
pub fn rejection_reply(found: Option<MyError>) -> (r: Option<(u16, &'static str)>)
    ensures
        match (found, r) {
            (Some(MyError::InvalidRequest), Some((code, text))) => code == 400 && text@
                == "Invalid request"@,
            (Some(MyError::InternalError), Some((code, text))) => code == 500 && text@
                == "Internal server error"@,
            (None, None) => true,
            _ => false,
        },
{
    match found {
        Some(MyError::InvalidRequest) => Some((400, "Invalid request")),
        Some(MyError::InternalError) => Some((500, "Internal server error")),
        None => None,
    }
}

/// A new plant is acknowledged; the controller does not change.
pub fn create_plant(plant: &PlantConfig, system: &System) -> (st: Status)
    ensures
        st == Status::Created,
{
    Status::Created
}

/// The device that waters the plant is queued to be triggered. Not found
/// when no device waters it.
pub fn water_plant(plant: &PlantConfig, system: &mut System) -> (st: Status)
    ensures
        old(system)@.plant_devices.contains_key(plant.id) ==> st == Status::Success && final(system)@
            == old(system)@.register(old(system)@.plant_devices[plant.id]),
        !old(system)@.plant_devices.contains_key(plant.id) ==> st == Status::NotFound && final(system)@ == old(system)@,
{
    match system.device_for_plant(plant.id) {
        Some(device) => {
            system.register_device(device);
            Status::Success
        },
        None => Status::NotFound,
    }
}

/// The first device with the requested identifier is queued to be
/// triggered, and a listener is kept for the completion of its cycle, whose
/// receiving end is returned. Not found when no device has the identifier.
pub fn activate_device(request: &DeviceRequest, system: &mut System) -> (r: (
    Status,
    Option<Receiver<()>>,
))
    ensures
        match first_with_id(old(system)@.devices, request.device_id) {
            Some(i) => {
                &&& 0 <= i < old(system)@.devices.len()
                &&& r.0 == Status::Accepted
                &&& r.1 is Some
                &&& final(system)@.listeners.contains_key(request.device_id)
                &&& final(system)@.pairs == old(system)@.pairs.push(
                    (final(system)@.listeners[request.device_id], r.1->0),
                )
                &&& final(system)@ == old(system)@.watch(
                    request.device_id,
                    final(system)@.listeners[request.device_id],
                    r.1->0,
                ).register(old(system)@.devices[i])
            },
            None => {
                &&& r.0 == Status::NotFound
                &&& r.1 is None
                &&& final(system)@ == old(system)@
            },
        },
{
    proof {
        crate::system::lemma_first_with_id(system@.devices, request.device_id);
    }
    match system.find_device(request.device_id) {
        Some(device) => {
            let (tx, rx, pairing) = completion_channel();
            system.register_cycle_complete_listener(device.id, tx);
            system.note_pairing(pairing);
            system.register_device(device);
            (Status::Accepted, Some(rx))
        },
        None => (Status::NotFound, None),
    }
}

/// The listener waiting for the device's cycle is fired and dropped.
pub fn cycle_complete(request: &DeviceRequest, system: &mut System) -> (st: Status)
    ensures
        st == Status::Success,
        final(system)@ == old(system)@.remove_listener(request.device_id),
{
    system.complete_cycle(request.device_id);
    Status::Success
}

/// A new plant queues the device that waters it, if one does; created, or
/// not found when no device waters it.
pub fn create_plant_registering(plant: &PlantConfig, system: &mut System) -> (st: Status)
    ensures
        old(system)@.plant_devices.contains_key(plant.id) ==> st == Status::Created && final(system)@ == old(system)@.register(old(system)@.plant_devices[plant.id]),
        !old(system)@.plant_devices.contains_key(plant.id) ==> st == Status::NotFound && final(system)@ == old(system)@,
{
    match system.device_for_plant(plant.id) {
        Some(device) => {
            system.register_device(device);
            Status::Created
        },
        None => Status::NotFound,
    }
}

} // verus!
