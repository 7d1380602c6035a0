//! The controller's state and the rules by which it schedules waterings.
use crate::config::Config;
use crate::device::{Device, DeviceView, Pump, PumpView, ValveRequest, device_from_config};
use crate::listener::{CompletionLog, Pairing, fire_completion};
use crate::plant::PlantView;
use crate::time::{ClockLog, utc_now, Timestamp, elapsed_nanos, has_elapsed, whole_seconds, div_toward_zero};
use std::collections::HashMap;
use tokio::sync::oneshot::{Receiver, Sender};
use vstd::prelude::*;

verus! {

broadcast use vstd::std_specs::hash::group_hash_axioms;

/// What the controller's state is.
pub struct SystemView {
    pub devices: Seq<DeviceView>,
    pub pump: PumpView,
    pub tick_ms: u64,
    pub open_device_count: u8,
    pub plant_devices: Map<u32, DeviceView>,
    pub to_trigger: Seq<DeviceView>,
    pub listeners: Map<u32, Sender<()>>,
    pub fired: Seq<Sender<()>>,
    pub pairs: Seq<(Sender<()>, Receiver<()>)>,
    pub clock_readings: Seq<Timestamp>,
}

/// The views of a list of devices.
pub open spec fn device_views(ds: Seq<Device>) -> Seq<DeviceView> {
    ds.map_values(|d: Device| d@)
}

/// The view of a map of devices.
pub open spec fn device_map_view(m: Map<u32, Device>) -> Map<u32, DeviceView> {
    m.map_values(|d: Device| d@)
}

/// `devices` without the devices driven by `pin`, in their order.
pub open spec fn without_pin(devices: Seq<DeviceView>, pin: u8) -> Seq<DeviceView>
    decreases devices.len(),
{
    if devices.len() == 0 {
        devices
    } else {
        let rest = without_pin(devices.drop_last(), pin);
        if devices.last().pin == pin {
            rest
        } else {
            rest.push(devices.last())
        }
    }
}

/// `m` with every plant of `plants` mapped to `d`, later plants last.
pub open spec fn with_plants(m: Map<u32, DeviceView>, plants: Seq<PlantView>, d: DeviceView) -> Map<
    u32,
    DeviceView,
>
    decreases plants.len(),
{
    if plants.len() == 0 {
        m
    } else {
        with_plants(m, plants.drop_last(), d).insert(plants.last().id, d)
    }
}

/// Each plant of each device mapped to its device; where several devices
/// water the same plant, the last of them.
pub open spec fn plant_index(devices: Seq<DeviceView>) -> Map<u32, DeviceView>
    decreases devices.len(),
{
    if devices.len() == 0 {
        Map::empty()
    } else {
        with_plants(plant_index(devices.drop_last()), devices.last().plants, devices.last())
    }
}

/// A device is due when it is closed and at least one cycle has passed since
/// it was last triggered.
pub open spec fn is_due(d: DeviceView, now: Timestamp) -> bool {
    &&& elapsed_nanos(now, d.last_trigger) >= d.cycle_ms * 1_000_000
    &&& !d.status
}

/// The positions of the due devices, in increasing order.
pub open spec fn due_indices(devices: Seq<DeviceView>, now: Timestamp) -> Seq<usize>
    decreases devices.len(),
{
    if devices.len() == 0 {
        Seq::empty()
    } else {
        let rest = due_indices(devices.drop_last(), now);
        if is_due(devices.last(), now) {
            rest.push((devices.len() - 1) as usize)
        } else {
            rest
        }
    }
}

/// The position of the first device with identifier `id`, if any.
pub open spec fn first_with_id(devices: Seq<DeviceView>, id: u32) -> Option<int>
    decreases devices.len(),
{
    if devices.len() == 0 {
        None
    } else {
        match first_with_id(devices.drop_last(), id) {
            Some(i) => Some(i),
            None => if devices.last().id == id {
                Some(devices.len() - 1)
            } else {
                None
            },
        }
    }
}

/// `first_with_id` finds the first matching position.
pub proof fn lemma_first_with_id_found(devices: Seq<DeviceView>, id: u32, i: int)
    requires
        0 <= i < devices.len(),
        devices[i].id == id,
        forall|j: int| 0 <= j < i ==> (#[trigger] devices[j]).id != id,
    ensures
        first_with_id(devices, id) == Some(i),
    decreases devices.len(),
{
    if i < devices.len() - 1 {
        let init = devices.drop_last();
        assert(init[i] == devices[i]);
        assert forall|j: int| 0 <= j < i implies (#[trigger] init[j]).id != id by {
            assert(init[j] == devices[j]);
        }
        lemma_first_with_id_found(init, id, i);
    } else {
        lemma_first_with_id_none(devices.drop_last(), id);
    }
}

/// `first_with_id` finds nothing when no device matches.
pub proof fn lemma_first_with_id_none(devices: Seq<DeviceView>, id: u32)
    requires
        forall|j: int| 0 <= j < devices.len() ==> (#[trigger] devices[j]).id != id,
    ensures
        first_with_id(devices, id) is None,
    decreases devices.len(),
{
    if devices.len() > 0 {
        let init = devices.drop_last();
        assert forall|j: int| 0 <= j < init.len() implies (#[trigger] init[j]).id != id by {
            assert(init[j] == devices[j]);
        }
        lemma_first_with_id_none(init, id);
        assert(devices.last() == devices[devices.len() - 1]);
    }
}

/// What `first_with_id` finds is a device with that identifier, and no
/// earlier device has it.
pub proof fn lemma_first_with_id(devices: Seq<DeviceView>, id: u32)
    ensures
        match first_with_id(devices, id) {
            Some(i) => 0 <= i < devices.len() && devices[i].id == id && forall|j: int|
                0 <= j < i ==> (#[trigger] devices[j]).id != id,
            None => forall|j: int| 0 <= j < devices.len() ==> (#[trigger] devices[j]).id != id,
        },
    decreases devices.len(),
{
    if devices.len() > 0 {
        let init = devices.drop_last();
        lemma_first_with_id(init, id);
        assert forall|j: int| 0 <= j < init.len() implies #[trigger] init[j] == devices[j] by {}
        assert(devices.last() == devices[devices.len() - 1]);
        match first_with_id(init, id) {
            Some(i) => {
                assert(init[i] == devices[i]);
                assert forall|j: int| 0 <= j < i implies (#[trigger] devices[j]).id != id by {
                    assert(init[j] == devices[j]);
                }
            },
            None => {
                assert forall|j: int| 0 <= j < devices.len() - 1 implies (#[trigger] devices[j]).id
                    != id by {
                    assert(init[j] == devices[j]);
                }
            },
        }
    }
}

impl SystemView {
    /// A device is queued to be triggered.
    pub open spec fn register(self, d: DeviceView) -> SystemView {
        SystemView { to_trigger: self.to_trigger.push(d), ..self }
    }

    /// Every queued device driven by `pin` is dropped from the queue.
    pub open spec fn deregister(self, pin: u8) -> SystemView {
        SystemView { to_trigger: without_pin(self.to_trigger, pin), ..self }
    }

    /// The pump is switched on or off.
    pub open spec fn set_pump(self, on: bool) -> SystemView {
        SystemView { pump: PumpView { status: on, ..self.pump }, ..self }
    }

    /// `sender` is kept as the completion listener of `id`, in place of any
    /// listener kept for it before.
    pub open spec fn add_listener(self, id: u32, sender: Sender<()>) -> SystemView {
        SystemView { listeners: self.listeners.insert(id, sender), ..self }
    }

    /// The completion listener of `id` is fired and dropped.
    pub open spec fn remove_listener(self, id: u32) -> SystemView {
        SystemView {
            listeners: self.listeners.remove(id),
            fired: if self.listeners.contains_key(id) {
                self.fired.push(self.listeners[id])
            } else {
                self.fired
            },
            ..self
        }
    }

    /// The listener kept for `id` is dropped without being fired.
    pub open spec fn drop_listener(self, id: u32) -> SystemView {
        SystemView { listeners: self.listeners.remove(id), ..self }
    }

    /// `sender` is kept as the completion listener of `id`, and recorded as
    /// paired with `receiver`.
    pub open spec fn watch(self, id: u32, sender: Sender<()>, receiver: Receiver<()>) -> SystemView {
        SystemView { pairs: self.pairs.push((sender, receiver)), ..self.add_listener(id, sender) }
    }

    /// A scheduling tick: when devices are queued, the pump is switched on.
    pub open spec fn check(self) -> SystemView {
        if self.to_trigger.len() > 0 {
            self.set_pump(true)
        } else {
            self
        }
    }

    /// A queued device starts watering: it leaves the queue, and one more
    /// device is open.
    pub open spec fn begin(self, d: DeviceView) -> SystemView {
        SystemView {
            open_device_count: (self.open_device_count + 1) as u8,
            ..self.deregister(d.pin)
        }
    }

    /// A device stops watering: one device fewer is open, and the pump stops
    /// when none is left.
    pub open spec fn end(self) -> SystemView {
        let count = (self.open_device_count - 1) as u8;
        let after = SystemView { open_device_count: count, ..self };
        if count == 0 {
            after.set_pump(false)
        } else {
            after
        }
    }

    /// A due device in the list starts watering.
    pub open spec fn start_at(self, i: int) -> SystemView {
        SystemView {
            open_device_count: (self.open_device_count + 1) as u8,
            devices: self.devices.update(i, opened(self.devices[i])),
            ..self
        }
    }

    /// A device in the list stops watering at `now`.
    pub open spec fn finish_at(self, i: int, now: Timestamp) -> SystemView {
        let ended = self.end();
        SystemView { devices: self.devices.update(i, closed_at(self.devices[i], now)), ..ended }
    }
}

/// The device, open.
pub open spec fn opened(d: DeviceView) -> DeviceView {
    DeviceView { status: true, ..d }
}

/// The device, closed after a watering that ended at `now`.
pub open spec fn closed_at(d: DeviceView, now: Timestamp) -> DeviceView {
    DeviceView { status: false, last_trigger: now, ..d }
}

/// The controller: the configured devices, the pump, the tick of the
/// scheduling loop, how many devices are open, which device waters each
/// plant, the devices queued to be triggered, and the listeners waiting for
/// a device's cycle to complete.
pub struct System {
    pub devices: Vec<Device>,
    pub pump: Pump,
    pub tick_ms: u64,
    pub open_device_count: u8,
    pub plant_devices: HashMap<u32, Device>,
    to_trigger: Vec<Device>,
    cycle_listeners: HashMap<u32, Sender<()>>,
    completions: CompletionLog,
    clock: ClockLog,
}

impl View for System {
    type V = SystemView;

    closed spec fn view(&self) -> SystemView {
        SystemView {
            devices: device_views(self.devices@),
            pump: self.pump@,
            tick_ms: self.tick_ms,
            open_device_count: self.open_device_count,
            plant_devices: device_map_view(self.plant_devices@),
            to_trigger: device_views(self.to_trigger@),
            listeners: self.cycle_listeners@,
            fired: self.completions.fired(),
            pairs: self.completions.pairs(),
            clock_readings: self.clock.readings(),
        }
    }
}

impl System {
    /// A controller over the given devices, with every plant of a device
    /// mapped to it, nothing open, nothing queued and nobody waiting.
    pub fn from_devices(devices: Vec<Device>, pump: Pump, tick_ms: u64) -> (s: System)
        ensures
            s@ == (SystemView {
                devices: device_views(devices@),
                pump: pump@,
                tick_ms,
                open_device_count: 0,
                plant_devices: plant_index(device_views(devices@)),
                to_trigger: Seq::empty(),
                listeners: Map::empty(),
                fired: Seq::empty(),
                pairs: Seq::empty(),
                clock_readings: Seq::empty(),
            }),
    {
        let ghost dv = device_views(devices@);
        let mut plant_devices: HashMap<u32, Device> = HashMap::new();
        let mut i: usize = 0;
        while i < devices.len()
            invariant
                i <= devices@.len(),
                dv == device_views(devices@),
                device_map_view(plant_devices@) == plant_index(dv.take(i as int)),
            decreases devices.len() - i,
        {
            let device = &devices[i];
            let ghost before = device_map_view(plant_devices@);
            let mut j: usize = 0;
            while j < device.plants.len()
                invariant
                    i < devices@.len(),
                    device == &devices@[i as int],
                    dv == device_views(devices@),
                    j <= device.plants@.len(),
                    device_map_view(plant_devices@) == with_plants(
                        before,
                        dv[i as int].plants.take(j as int),
                        dv[i as int],
                    ),
                decreases device.plants.len() - j,
            {
                let id = device.plants[j].id;
                let copy = device.clone();
                let ghost m0 = plant_devices@;
                plant_devices.insert(id, copy);
                proof {
                    let ps = dv[i as int].plants;
                    assert(ps.take(j + 1).drop_last() == ps.take(j as int));
                    assert(ps.take(j + 1).last().id == id);
                    assert(device_map_view(plant_devices@) == device_map_view(m0).insert(
                        id,
                        dv[i as int],
                    ));
                }
                j = j + 1;
            }
            proof {
                assert(dv[i as int].plants.take(device.plants@.len() as int) == dv[i as int].plants);
                assert(dv.take(i + 1).drop_last() == dv.take(i as int));
                assert(dv.take(i + 1).last() == dv[i as int]);
            }
            i = i + 1;
        }
        assert(dv.take(devices@.len() as int) == dv);
        let s = System {
            devices,
            pump,
            tick_ms,
            open_device_count: 0,
            plant_devices,
            to_trigger: Vec::new(),
            cycle_listeners: HashMap::new(),
            completions: CompletionLog::new(),
            clock: ClockLog::new(),
        };
        assert(s@.to_trigger == Seq::<DeviceView>::empty());
        assert(s@.listeners == Map::<u32, Sender<()>>::empty());
        s
    }

    /// The controller that a configuration describes: a device for each
    /// entry (each last triggered when it is built), the pump stopped, and the
    /// configured tick in milliseconds.
    pub fn init(config: Config) -> (s: System)
        requires
            forall|i: int|
                0 <= i < config.devices@.len() ==> #[trigger] config.devices@[i]@.durations_in_range(),
        ensures
            s@.devices.len() == config.devices@.len(),
            forall|i: int|
                0 <= i < s@.devices.len() ==> #[trigger] s@.devices[i] == device_from_config(
                    config.devices@[i]@,
                    s@.devices[i].last_trigger,
                ),
            forall|i: int|
                0 <= i < s@.devices.len() ==> {
                    &&& (#[trigger] s@.devices[i]).cycle_ms == config.devices@[i].cycle_sec * 1000
                    &&& s@.devices[i].duration_ms == config.devices@[i].duration_ms
                    &&& s@.devices[i].id == config.devices@[i].device_id
                    &&& s@.devices[i].pin == config.devices@[i].pin
                    &&& !s@.devices[i].status
                    &&& s@.devices[i].last_trigger.secs >= 0
                },
            s@.pump == (PumpView { status: false, ..config.pump@ }),
            s@.tick_ms == config.tick,
            s@.open_device_count == 0,
            s@.plant_devices == plant_index(s@.devices),
            s@.to_trigger == Seq::<DeviceView>::empty(),
            s@.listeners == Map::<u32, Sender<()>>::empty(),
            s@.fired == Seq::<Sender<()>>::empty(),
            s@.pairs == Seq::<(Sender<()>, Receiver<()>)>::empty(),
            s@.clock_readings.len() == s@.devices.len(),
            forall|i: int|
                0 <= i < s@.devices.len() ==> #[trigger] s@.devices[i].last_trigger
                    == s@.clock_readings[i],
    {
        let mut devices: Vec<Device> = Vec::new();
        let mut readings = ClockLog::new();
        let mut i: usize = 0;
        while i < config.devices.len()
            invariant
                i <= config.devices@.len(),
                devices@.len() == i,
                readings.readings().len() == i,
                forall|j: int| 0 <= j < i ==> #[trigger] readings.readings()[j] == devices@[j].last_trigger,
                forall|j: int|
                    0 <= j < config.devices@.len() ==> #[trigger] config.devices@[j]@.durations_in_range(),
                forall|j: int|
                    0 <= j < i ==> #[trigger] devices@[j]@ == device_from_config(
                        config.devices@[j]@,
                        devices@[j]@.last_trigger,
                    ) && devices@[j].last_trigger.secs >= 0,
            decreases config.devices.len() - i,
        {
            let reading = utc_now();
            readings.record(&reading);
            devices.push(Device::from_config_at(&config.devices[i], reading.instant()));
            i = i + 1;
        }
        let pump = Pump::new(config.pump);
        let ghost built = device_views(devices@);
        let mut s = System::from_devices(devices, pump, config.tick);
        s.clock = readings;
        assert forall|i: int| 0 <= i < s@.devices.len() implies {
            &&& (#[trigger] s@.devices[i]).cycle_ms == config.devices@[i].cycle_sec * 1000
            &&& s@.devices[i].duration_ms == config.devices@[i].duration_ms
            &&& s@.devices[i].id == config.devices@[i].device_id
            &&& s@.devices[i].pin == config.devices@[i].pin
            &&& !s@.devices[i].status
            &&& s@.devices[i].last_trigger.secs >= 0
        } by {
            assert(s@.devices[i] == built[i]);
            crate::laws::law_device_from_config(config.devices@[i]@, s@.devices[i].last_trigger);
        }
        s
    }

    /// The device that waters `plant_id`, if any.
    pub fn device_for_plant(&self, plant_id: u32) -> (d: Option<Device>)
        ensures
            match d {
                Some(d) => self@.plant_devices.contains_key(plant_id) && d@
                    == self@.plant_devices[plant_id],
                None => !self@.plant_devices.contains_key(plant_id),
            },
    {
        match self.plant_devices.get(&plant_id) {
            Some(d) => Some(d.clone()),
            None => None,
        }
    }

    /// The first configured device with identifier `device_id`, if any.
    pub fn find_device(&self, device_id: u32) -> (d: Option<Device>)
        ensures
            match first_with_id(self@.devices, device_id) {
                Some(i) => d is Some && d->0@ == self@.devices[i] && d->0.id == device_id,
                None => d is None,
            },
    {
        proof {
            lemma_first_with_id(self@.devices, device_id);
        }
        let ghost dv = device_views(self.devices@);
        let mut i: usize = 0;
        while i < self.devices.len()
            invariant
                i <= self.devices@.len(),
                dv == device_views(self.devices@),
                dv == self@.devices,
                forall|j: int| 0 <= j < i ==> (#[trigger] dv[j]).id != device_id,
            decreases self.devices.len() - i,
        {
            if self.devices[i].id == device_id {
                proof {
                    lemma_first_with_id_found(dv, device_id, i as int);
                }
                return Some(self.devices[i].clone());
            }
            i = i + 1;
        }
        proof {
            lemma_first_with_id_none(dv, device_id);
        }
        None
    }

    /// Queues a device to be triggered at the next tick.
    pub fn register_device(&mut self, device: Device)
        ensures
            final(self)@ == old(self)@.register(device@),
    {
        self.to_trigger.push(device);
        assert(device_views(self.to_trigger@) == device_views(old(self).to_trigger@).push(device@));
    }

    /// Drops from the queue every device driven by the same pin as `device`.
    pub fn deregister_device(&mut self, device: &Device)
        ensures
            final(self)@ == old(self)@.deregister(device.pin),
    {
        let pin = device.pin;
        let mut kept: Vec<Device> = Vec::new();
        let mut i: usize = 0;
        let ghost queued = device_views(self.to_trigger@);
        while i < self.to_trigger.len()
            invariant
                i <= self.to_trigger@.len(),
                queued == device_views(self.to_trigger@),
                device_views(kept@) == without_pin(queued.take(i as int), pin),
            decreases self.to_trigger.len() - i,
        {
            assert(queued.take(i + 1).drop_last() == queued.take(i as int));
            if self.to_trigger[i].pin != pin {
                let d = self.to_trigger[i].clone();
                kept.push(d);
                assert(device_views(kept@) == without_pin(queued.take(i as int), pin).push(queued[i as int]));
            }
            i = i + 1;
        }
        assert(queued.take(self.to_trigger@.len() as int) == queued);
        self.to_trigger = kept;
    }

    /// Starts the pump if it is stopped.
    fn activate_pump(&mut self)
        ensures
            final(self)@ == old(self)@.set_pump(true),
    {
        if !self.pump.status {
            self.pump.activate();
        }
    }

    /// Stops the pump if it runs.
    fn deactivate_pump(&mut self)
        ensures
            final(self)@ == old(self)@.set_pump(false),
    {
        if self.pump.status {
            self.pump.deactivate();
        }
    }

    /// Keeps `sender` to be fired when the cycle of `device_id` completes,
    /// in place of any listener that was kept for it.
    pub fn register_cycle_complete_listener(&mut self, device_id: u32, sender: Sender<()>)
        ensures
            final(self)@ == old(self)@.add_listener(device_id, sender),
    {
        self.cycle_listeners.insert(device_id, sender);
    }

    /// Records that the two ends named by `pairing` belong together.
    pub fn note_pairing(&mut self, pairing: Pairing)
        ensures
            final(self)@ == (SystemView {
                pairs: old(self)@.pairs.push((pairing.sender(), pairing.receiver())),
                ..old(self)@
            }),
    {
        self.completions.record_pair(pairing);
    }

    /// Removes the listener kept for `device_id` and hands it back, if there
    /// is one.
    pub fn take_cycle_listener(&mut self, device_id: u32) -> (sender: Option<Sender<()>>)
        ensures
            final(self)@ == old(self)@.drop_listener(device_id),
            match sender {
                Some(s) => old(self)@.listeners.contains_key(device_id) && s == old(
                    self,
                )@.listeners[device_id],
                None => !old(self)@.listeners.contains_key(device_id),
            },
    {
        self.cycle_listeners.remove(&device_id)
    }

    /// Fires and drops the listener kept for `device_id`, if there is one.
    pub fn complete_cycle(&mut self, device_id: u32)
        ensures
            final(self)@ == old(self)@.remove_listener(device_id),
            old(self)@.listeners.contains_key(device_id) ==> final(self)@.fired == old(
                self,
            )@.fired.push(old(self)@.listeners[device_id]),
            !old(self)@.listeners.contains_key(device_id) ==> final(self)@.fired == old(
                self,
            )@.fired,
            !final(self)@.listeners.contains_key(device_id),
    {
        if let Some(sender) = self.take_cycle_listener(device_id) {
            let fired = fire_completion(sender);
            self.completions.record_fired(fired);
        }
    }

    /// The positions of the devices that are due at `now`.
    pub fn due_devices(&self, now: &Timestamp) -> (idx: Vec<usize>)
        ensures
            idx@ == due_indices(self@.devices, *now),
            forall|k: int| 0 <= k < idx@.len() ==> #[trigger] idx@[k] < self@.devices.len(),
            forall|i: int|
                0 <= i < self@.devices.len() ==> (idx@.contains(i as usize) <==> ((now.secs
                    - self@.devices[i].last_trigger.secs) * 1_000_000_000 + now.nanos
                    - self@.devices[i].last_trigger.nanos >= self@.devices[i].cycle_ms * 1_000_000
                    && !self@.devices[i].status)),
    {
        let count = self.devices.len();
        proof {
            crate::laws::law_due_means_cycle_elapsed(self@.devices, *now);
        }
        let ghost dv = device_views(self.devices@);
        let mut idx: Vec<usize> = Vec::new();
        let mut i: usize = 0;
        while i < count
            invariant
                count == self.devices@.len(),
                i <= self.devices@.len(),
                dv == device_views(self.devices@),
                dv == self@.devices,
                idx@ == due_indices(dv.take(i as int), *now),
            decreases self.devices.len() - i,
        {
            let d = &self.devices[i];
            assert(dv.take(i + 1).drop_last() == dv.take(i as int));
            assert(dv.take(i + 1).last() == d@);
            if has_elapsed(now, &d.last_trigger, d.cycle_ms) && !d.status {
                idx.push(i);
            }
            i = i + 1;
        }
        assert(dv.take(self.devices@.len() as int) == dv);
        idx
    }

    /// A copy of the queued devices, in order.
    pub fn queued_devices(&self) -> (out: Vec<Device>)
        ensures
            device_views(out@) == self@.to_trigger,
    {
        let mut out: Vec<Device> = Vec::new();
        let mut i: usize = 0;
        while i < self.to_trigger.len()
            invariant
                i <= self.to_trigger@.len(),
                device_views(out@) == device_views(self.to_trigger@).take(i as int),
            decreases self.to_trigger.len() - i,
        {
            out.push(self.to_trigger[i].clone());
            assert(device_views(self.to_trigger@).take(i + 1) == device_views(self.to_trigger@).take(
                i as int,
            ).push(self.to_trigger@[i as int]@));
            i = i + 1;
        }
        assert(device_views(self.to_trigger@).take(self.to_trigger@.len() as int) == device_views(
            self.to_trigger@,
        ));
        out
    }

    /// A queued device starts watering: it is marked open, every queued
    /// device on its pin leaves the queue, one more device is counted open,
    /// and the watering time in milliseconds is returned (a negative duration
    /// reads as the same bits unsigned).
    pub fn begin_watering(&mut self, device: &mut Device) -> (sleep_ms: u64)
        requires
            old(self)@.open_device_count < u8::MAX,
        ensures
            final(self)@ == old(self)@.begin(old(device)@),
            final(device)@ == opened(old(device)@),
            sleep_ms == old(device).duration_ms as u64,
    {
        self.deregister_device(device);
        device.status = true;
        self.open_device_count = self.open_device_count + 1;
        device.duration_ms as u64
    }

    /// A device stops watering at `now`: one device fewer is counted open,
    /// the pump stops when none is left, and the device is closed with `now`
    /// as its last trigger.
    pub fn end_watering(&mut self, device: &mut Device, now: Timestamp)
        requires
            old(self)@.open_device_count > 0,
        ensures
            final(self)@ == old(self)@.end(),
            final(device)@ == closed_at(old(device)@, now),
    {
        self.open_device_count = self.open_device_count - 1;
        if self.open_device_count == 0 {
            self.deactivate_pump();
        }
        device.deactivate();
        device.last_trigger = now;
        device.status = false;
    }

    /// The due device at `index` starts watering: it is marked open, one
    /// more device is counted open, and its watering time in milliseconds is
    /// returned (a negative duration reads as the same bits unsigned).
    pub fn start_device_at(&mut self, index: usize) -> (sleep_ms: u64)
        requires
            index < old(self)@.devices.len(),
            old(self)@.open_device_count < u8::MAX,
        ensures
            final(self)@ == old(self)@.start_at(index as int),
            sleep_ms == old(self)@.devices[index as int].duration_ms as u64,
    {
        let mut d = self.devices[index].clone();
        d.status = true;
        let sleep_ms = d.duration_ms as u64;
        self.devices.set(index, d);
        self.open_device_count = self.open_device_count + 1;
        assert(device_views(self.devices@) == old(self)@.devices.update(
            index as int,
            opened(old(self)@.devices[index as int]),
        ));
        sleep_ms
    }

    /// The device at `index` stops watering at `now`: one device fewer is
    /// counted open, the pump stops when none is left, and the device is
    /// closed with `now` as its last trigger.
    pub fn finish_device_at(&mut self, index: usize, now: Timestamp)
        requires
            index < old(self)@.devices.len(),
            old(self)@.open_device_count > 0,
        ensures
            final(self)@ == old(self)@.finish_at(index as int, now),
    {
        self.open_device_count = self.open_device_count - 1;
        if self.open_device_count == 0 {
            self.deactivate_pump();
        }
        let mut d = self.devices[index].clone();
        d.deactivate();
        d.last_trigger = now;
        d.status = false;
        self.devices.set(index, d);
        assert(device_views(self.devices@) == old(self)@.devices.update(
            index as int,
            closed_at(old(self)@.devices[index as int], now),
        ));
    }

    /// The request that opens a remote valve for one cycle of `device`: the
    /// `activate` endpoint at the device's address, the pin under the field
    /// `device`, and the whole seconds of the device's cycle.
    pub fn activate_remote_valve(&self, device: &Device) -> (r: ValveRequest)
        requires
            device.cycle_ms != i64::MIN,
        ensures
            r.url@ == "http://"@ + device.ip@ + ":8080/activate"@,
            r.pin_field@ == "device"@,
            r.pin == device.pin,
            r.duration_secs == div_toward_zero(device.cycle_ms as int, 1000),
    {
        let mut url = String::from_str("http://");
        url.append(device.ip.as_str());
        url.append(":8080/activate");
        ValveRequest {
            url,
            pin_field: String::from_str("device"),
            pin: device.pin,
            duration_secs: whole_seconds(device.cycle_ms),
        }
    }
}

/// A scheduling tick: returns a copy of the queued devices, which are to be
/// opened, and switches the pump on when there are any.
pub fn check_devices(system: &mut System) -> (to_open: Vec<Device>)
    ensures
        device_views(to_open@) == old(system)@.to_trigger,
        final(system)@ == old(system)@.check(),
{
    let to_open = system.queued_devices();
    if to_open.len() > 0 {
        system.activate_pump();
    }
    to_open
}

/// A scheduling tick by the devices' own cycles: returns the positions of
/// the devices due at `now`, which are to be opened, and switches the pump on
/// when there are any.
pub fn check_due_devices(system: &mut System, now: &Timestamp) -> (due: Vec<usize>)
    ensures
        due@ == due_indices(old(system)@.devices, *now),
        final(system)@ == (if due@.len() > 0 {
            old(system)@.set_pump(true)
        } else {
            old(system)@
        }),
{
    let due = system.due_devices(now);
    if due.len() > 0 {
        system.activate_pump();
    }
    due
}

} // verus!
