//! Properties of the scheduling rules that span several operations.
use crate::config::DeviceConfigView;
use crate::device::{DeviceView, device_from_config};
use crate::system::{
    SystemView, without_pin, with_plants, plant_index, is_due, due_indices, opened, closed_at,
};
use crate::plant::PlantView;
use crate::time::{Timestamp, timestamp_nanos, div_toward_zero};
use tokio::sync::oneshot::{Receiver, Sender};
use vstd::prelude::*;

verus! {

/// Whether one of the plants of `d` has identifier `k`.
pub open spec fn waters(d: DeviceView, k: u32) -> bool {
    exists|j: int| 0 <= j < d.plants.len() && (#[trigger] d.plants[j]).id == k
}

/// Whether one of `plants` has identifier `k`.
pub open spec fn lists_plant(plants: Seq<PlantView>, k: u32) -> bool {
    exists|j: int| 0 <= j < plants.len() && (#[trigger] plants[j]).id == k
}

/// Dropping the devices of a pin keeps exactly the devices on other pins:
/// none that is left is on the pin, each one left was there before, and each
/// one on another pin is left.
pub proof fn law_without_pin(devices: Seq<DeviceView>, pin: u8)
    ensures
        forall|k: int|
            0 <= k < without_pin(devices, pin).len() ==> (#[trigger] without_pin(devices, pin)[k]).pin
                != pin && devices.contains(without_pin(devices, pin)[k]),
        forall|i: int|
            0 <= i < devices.len() && (#[trigger] devices[i]).pin != pin ==> without_pin(
                devices,
                pin,
            ).contains(devices[i]),
        without_pin(devices, pin).len() <= devices.len(),
    decreases devices.len(),
{
    if devices.len() > 0 {
        let init = devices.drop_last();
        let rest = without_pin(init, pin);
        law_without_pin(init, pin);
        let r = without_pin(devices, pin);
        assert forall|k: int| 0 <= k < r.len() implies (#[trigger] r[k]).pin != pin && devices.contains(
            r[k],
        ) by {
            if k < rest.len() {
                assert(r[k] == rest[k]);
                let w = choose|w: int| 0 <= w < init.len() && init[w] == rest[k];
                assert(devices[w] == init[w]);
            } else {
                assert(r[k] == devices.last());
                assert(devices[devices.len() - 1] == devices.last());
            }
        }
        assert forall|i: int| 0 <= i < devices.len() && (#[trigger] devices[i]).pin != pin implies r.contains(
            devices[i],
        ) by {
            if i < devices.len() - 1 {
                assert(init[i] == devices[i]);
                let w = choose|w: int| 0 <= w < rest.len() && rest[w] == init[i];
                if devices.last().pin != pin {
                    assert(r[w] == rest[w]);
                } else {
                    assert(r[w] == rest[w]);
                }
            } else {
                assert(devices[i] == devices.last());
                assert(r[r.len() - 1] == devices.last());
            }
        }
    }
}

/// Dropping a pin from the queue after queueing a device on that pin is the
/// same as dropping the pin from the queue as it was: the queued device does
/// not survive.
pub proof fn law_register_then_deregister(s: SystemView, d: DeviceView)
    ensures
        s.register(d).deregister(d.pin) == s.deregister(d.pin),
{
    assert(s.to_trigger.push(d).drop_last() == s.to_trigger);
    assert(s.to_trigger.push(d).last() == d);
}

/// Completing a device's cycle right after keeping a listener for it fires
/// exactly that listener, and leaves the listeners as they were, without that
/// device.
pub proof fn law_listener_round_trip(s: SystemView, id: u32, sender: Sender<()>)
    ensures
        s.add_listener(id, sender).remove_listener(id).listeners == s.listeners.remove(id),
        s.add_listener(id, sender).remove_listener(id).fired == s.fired.push(sender),
        s.add_listener(id, sender).listeners[id] == sender,
{
    assert(s.listeners.insert(id, sender).remove(id) == s.listeners.remove(id));
}

/// A tick switches the pump on when devices are queued, changes nothing else,
/// and changes nothing at all when none is queued.
pub proof fn law_check_starts_pump(s: SystemView)
    ensures
        s.to_trigger.len() > 0 ==> s.check().pump.status,
        s.check() == s.set_pump(s.check().pump.status),
        s.to_trigger.len() == 0 ==> s.check() == s,
{
}

/// A watering that begins and ends with no other step in between leaves as
/// many devices open as before, drops the device's pin from the queue, and
/// stops the pump when no other device was open; the device is closed with
/// the end of the watering as its last trigger.
pub proof fn law_watering_round_trip(s: SystemView, d: DeviceView, now: Timestamp)
    requires
        s.open_device_count < u8::MAX,
    ensures
        s.begin(d).end() == (if s.open_device_count == 0 {
            s.deregister(d.pin).set_pump(false)
        } else {
            s.deregister(d.pin)
        }),
        closed_at(opened(d), now) == closed_at(d, now),
{
}

/// The end of a watering stops the pump when it leaves no device open, and
/// counts one device fewer.
pub proof fn law_end_stops_idle_pump(s: SystemView)
    requires
        s.open_device_count > 0,
    ensures
        s.end().open_device_count == s.open_device_count - 1,
        s.end().open_device_count == 0 ==> !s.end().pump.status,
        s.end().open_device_count > 0 ==> s.end().pump == s.pump,
{
}

/// The due positions are exactly the positions of the due devices, in
/// increasing order.
pub proof fn law_due_indices(devices: Seq<DeviceView>, now: Timestamp)
    requires
        devices.len() <= usize::MAX,
    ensures
        forall|i: int|
            0 <= i < devices.len() ==> (is_due(devices[i], now) <==> due_indices(
                devices,
                now,
            ).contains(i as usize)),
        forall|k: int|
            0 <= k < due_indices(devices, now).len() ==> 0 <= #[trigger] due_indices(devices, now)[k]
                < devices.len() && is_due(devices[due_indices(devices, now)[k] as int], now),
        forall|k1: int, k2: int|
            0 <= k1 < k2 < due_indices(devices, now).len() ==> #[trigger] due_indices(devices, now)[k1]
                < #[trigger] due_indices(devices, now)[k2],
    decreases devices.len(),
{
    if devices.len() > 0 {
        let init = devices.drop_last();
        law_due_indices(init, now);
        let rest = due_indices(init, now);
        let r = due_indices(devices, now);
        assert(devices.last() == devices[devices.len() - 1]);
        assert forall|k: int| 0 <= k < r.len() implies 0 <= #[trigger] r[k] < devices.len() && is_due(
            devices[r[k] as int],
            now,
        ) by {
            if k < rest.len() {
                assert(r[k] == rest[k]);
                assert(init[rest[k] as int] == devices[rest[k] as int]);
            }
        }
        assert forall|i: int| 0 <= i < devices.len() implies (is_due(devices[i], now) <==> r.contains(
            i as usize,
        )) by {
            if i < devices.len() - 1 {
                assert(init[i] == devices[i]);
                if is_due(devices[i], now) {
                    let w = choose|w: int| 0 <= w < rest.len() && rest[w] == i as usize;
                    assert(r[w] == rest[w]);
                }
                if r.contains(i as usize) {
                    let w = choose|w: int| 0 <= w < r.len() && r[w] == i as usize;
                    if w < rest.len() {
                        assert(r[w] == rest[w]);
                        assert(rest.contains(i as usize));
                    }
                }
            } else {
                if is_due(devices[i], now) {
                    assert(r[r.len() - 1] == i as usize);
                }
                if r.contains(i as usize) {
                    let w = choose|w: int| 0 <= w < r.len() && r[w] == i as usize;
                    if w < rest.len() {
                        assert(r[w] == rest[w]);
                    }
                }
            }
        }
        assert forall|k1: int, k2: int| 0 <= k1 < k2 < r.len() implies #[trigger] r[k1] < #[trigger] r[k2] by {
            if k2 < rest.len() {
                assert(r[k1] == rest[k1]);
                assert(r[k2] == rest[k2]);
            } else {
                assert(r[k1] == rest[k1]);
            }
        }
    }
}

/// A device that has started watering is not due, whatever the time.
pub proof fn law_started_device_not_due(s: SystemView, i: int, now: Timestamp)
    requires
        0 <= i < s.devices.len(),
        s.devices.len() <= usize::MAX,
        s.open_device_count < u8::MAX,
    ensures
        !due_indices(s.start_at(i).devices, now).contains(i as usize),
{
    law_due_indices(s.start_at(i).devices, now);
    assert(s.start_at(i).devices[i] == opened(s.devices[i]));
}

/// A watering of a listed device that starts and finishes with no other step
/// in between leaves as many devices open as before, closes the device with
/// the end of the watering as its last trigger, and stops the pump when no
/// other device was open.
pub proof fn law_start_finish_round_trip(s: SystemView, i: int, now: Timestamp)
    requires
        0 <= i < s.devices.len(),
        s.open_device_count < u8::MAX,
    ensures
        s.start_at(i).finish_at(i, now) == (if s.open_device_count == 0 {
            SystemView { devices: s.devices.update(i, closed_at(s.devices[i], now)), ..s }.set_pump(
                false,
            )
        } else {
            SystemView { devices: s.devices.update(i, closed_at(s.devices[i], now)), ..s }
        }),
{
    let upd = s.devices.update(i, opened(s.devices[i]));
    assert(upd[i] == opened(s.devices[i]));
    assert(upd.update(i, closed_at(upd[i], now)) == s.devices.update(i, closed_at(s.devices[i], now)));
}

/// Once a device is due, it stays due as time goes on, until it changes.
pub proof fn law_due_stays_due(d: DeviceView, now: Timestamp, later: Timestamp)
    requires
        is_due(d, now),
        timestamp_nanos(later) >= timestamp_nanos(now),
    ensures
        is_due(d, later),
{
}

/// A cycle configured in whole seconds is requested again in the same number
/// of seconds.
pub proof fn law_seconds_round_trip(seconds: int)
    ensures
        div_toward_zero(seconds * 1000, 1000) == seconds,
{
    if seconds >= 0 {
        assert((seconds * 1000) / 1000 == seconds) by (nonlinear_arith);
    } else {
        assert(-(seconds * 1000) == (-seconds) * 1000) by (nonlinear_arith);
        assert(((-seconds) * 1000) / 1000 == -seconds) by (nonlinear_arith);
    }
}

/// Adding a device's plants to the index: a plant of the device maps to the
/// device, any other plant keeps what it mapped to.
pub proof fn lemma_with_plants(
    m: Map<u32, DeviceView>,
    plants: Seq<PlantView>,
    d: DeviceView,
    k: u32,
)
    ensures
        with_plants(m, plants, d).contains_key(k) <==> (m.contains_key(k) || lists_plant(plants, k)),
        lists_plant(plants, k) ==> with_plants(m, plants, d)[k] == d,
        !lists_plant(plants, k) && m.contains_key(k) ==> with_plants(m, plants, d)[k] == m[k],
    decreases plants.len(),
{
    if plants.len() > 0 {
        let init = plants.drop_last();
        lemma_with_plants(m, init, d, k);
        assert(plants.last() == plants[plants.len() - 1]);
        if lists_plant(init, k) {
            let j = choose|j: int| 0 <= j < init.len() && (#[trigger] init[j]).id == k;
            assert(plants[j] == init[j]);
        }
        if lists_plant(plants, k) && plants.last().id != k {
            let j = choose|j: int| 0 <= j < plants.len() && (#[trigger] plants[j]).id == k;
            assert(init[j] == plants[j]);
        }
    }
}

/// The plant index maps a plant exactly when some device waters it, and
/// then to the last device that waters it.
#[verifier::rlimit(40)]
pub proof fn law_plant_index(devices: Seq<DeviceView>, k: u32)
    ensures
        plant_index(devices).contains_key(k) <==> exists|i: int|
            0 <= i < devices.len() && waters(#[trigger] devices[i], k),
        forall|i: int|
            0 <= i < devices.len() && waters(#[trigger] devices[i], k) && (forall|i2: int|
                i < i2 < devices.len() ==> !waters(#[trigger] devices[i2], k)) ==> plant_index(
                devices,
            )[k] == devices[i],
    decreases devices.len(),
{
    if devices.len() > 0 {
        let init = devices.drop_last();
        let last = devices.last();
        law_plant_index(init, k);
        lemma_with_plants(plant_index(init), last.plants, last, k);
        assert(last == devices[devices.len() - 1]);
        assert(waters(last, k) == lists_plant(last.plants, k));
        assert forall|i: int| 0 <= i < init.len() implies #[trigger] init[i] == devices[i] by {}
        if plant_index(devices).contains_key(k) {
            if !lists_plant(last.plants, k) {
                let i = choose|i: int| 0 <= i < init.len() && waters(#[trigger] init[i], k);
                assert(waters(devices[i], k));
            }
        }
        if exists|i: int| 0 <= i < devices.len() && waters(#[trigger] devices[i], k) {
            let i = choose|i: int| 0 <= i < devices.len() && waters(#[trigger] devices[i], k);
            if i < devices.len() - 1 {
                assert(waters(init[i], k));
            }
        }
        assert forall|i: int|
            0 <= i < devices.len() && waters(#[trigger] devices[i], k) && (forall|i2: int|
                i < i2 < devices.len() ==> !waters(#[trigger] devices[i2], k)) implies plant_index(
            devices,
        )[k] == devices[i] by {
            if i < devices.len() - 1 {
                assert(!waters(devices[devices.len() - 1], k));
                assert(waters(init[i], k));
                assert forall|i2: int| i < i2 < init.len() implies !waters(#[trigger] init[i2], k) by {
                    assert(init[i2] == devices[i2]);
                }
            }
        }
    }
}

/// The pump runs whenever a device is open.
pub open spec fn pump_runs_while_open(s: SystemView) -> bool {
    s.open_device_count > 0 ==> s.pump.status
}

/// Every step keeps the pump running while a device is open, provided that a
/// watering only begins while the pump runs (as it does right after a tick
/// that queued it).
pub proof fn law_pump_runs_while_open(
    s: SystemView,
    d: DeviceView,
    pin: u8,
    id: u32,
    sender: Sender<()>,
    i: int,
    now: Timestamp,
)
    requires
        pump_runs_while_open(s),
    ensures
        pump_runs_while_open(s.register(d)),
        pump_runs_while_open(s.deregister(pin)),
        pump_runs_while_open(s.add_listener(id, sender)),
        pump_runs_while_open(s.remove_listener(id)),
        pump_runs_while_open(s.check()),
        s.open_device_count < u8::MAX && s.pump.status ==> pump_runs_while_open(s.begin(d)),
        s.open_device_count > 0 ==> pump_runs_while_open(s.end()),
        0 <= i < s.devices.len() && s.open_device_count < u8::MAX && s.pump.status
            ==> pump_runs_while_open(s.start_at(i)),
        0 <= i < s.devices.len() && s.open_device_count > 0 ==> pump_runs_while_open(
            s.finish_at(i, now),
        ),
        s.to_trigger.len() > 0 ==> s.check().pump.status,
{
}

/// The pump runs only while some device is queued or open.
pub open spec fn pump_only_while_busy(s: SystemView) -> bool {
    s.pump.status ==> (s.open_device_count > 0 || s.to_trigger.len() > 0)
}

/// One step of the controller, as the server and its watering tasks take
/// them in turn.
pub enum Step {
    /// A device is queued (a request asked for it).
    Register(DeviceView),
    /// A scheduling tick.
    Tick,
    /// A queued device begins watering.
    Begin(DeviceView),
    /// A watering ends.
    End,
    /// A completion listener is kept.
    Listen(u32, Sender<()>),
    /// A cycle completes.
    Complete(u32),
}

/// The state after one step.
pub open spec fn apply(s: SystemView, step: Step) -> SystemView {
    match step {
        Step::Register(d) => s.register(d),
        Step::Tick => s.check(),
        Step::Begin(d) => s.begin(d),
        Step::End => s.end(),
        Step::Listen(id, sender) => s.add_listener(id, sender),
        Step::Complete(id) => s.remove_listener(id),
    }
}

/// A step can be taken in a state: a watering begins only while fewer than
/// `u8::MAX` devices are open, and ends only while one is.
pub open spec fn step_fits(s: SystemView, step: Step) -> bool {
    match step {
        Step::Begin(_) => s.open_device_count < u8::MAX,
        Step::End => s.open_device_count > 0,
        _ => true,
    }
}

/// The state after the steps, in order.
pub open spec fn run(s: SystemView, steps: Seq<Step>) -> SystemView
    decreases steps.len(),
{
    if steps.len() == 0 {
        s
    } else {
        apply(run(s, steps.drop_last()), steps.last())
    }
}

/// Each step fits the state it is taken in.
pub open spec fn run_fits(s: SystemView, steps: Seq<Step>) -> bool {
    forall|k: int| 0 <= k < steps.len() ==> step_fits(run(s, steps.take(k)), #[trigger] steps[k])
}

/// How many of the steps begin a watering.
pub open spec fn count_begins(steps: Seq<Step>) -> nat
    decreases steps.len(),
{
    if steps.len() == 0 {
        0
    } else {
        count_begins(steps.drop_last()) + if steps.last() is Begin {
            1nat
        } else {
            0nat
        }
    }
}

/// How many of the steps end a watering.
pub open spec fn count_ends(steps: Seq<Step>) -> nat
    decreases steps.len(),
{
    if steps.len() == 0 {
        0
    } else {
        count_ends(steps.drop_last()) + if steps.last() is End {
            1nat
        } else {
            0nat
        }
    }
}

proof fn lemma_run_fits_prefix(s: SystemView, steps: Seq<Step>)
    requires
        steps.len() > 0,
        run_fits(s, steps),
    ensures
        run_fits(s, steps.drop_last()),
        step_fits(run(s, steps.drop_last()), steps.last()),
{
    let init = steps.drop_last();
    assert forall|k: int| 0 <= k < init.len() implies step_fits(
        run(s, init.take(k)),
        #[trigger] init[k],
    ) by {
        assert(init.take(k) == steps.take(k));
        assert(init[k] == steps[k]);
        assert(step_fits(run(s, steps.take(k)), steps[k]));
    }
    assert(steps.take(steps.len() - 1) == init);
    assert(step_fits(run(s, steps.take(steps.len() - 1)), steps[steps.len() - 1]));
}

/// Under any interleaving of requests, ticks and watering tasks, the number
/// of open devices is the number counted at the start, plus the waterings
/// begun, minus those ended.
pub proof fn law_open_count_tracks_waterings(s: SystemView, steps: Seq<Step>)
    requires
        run_fits(s, steps),
    ensures
        run(s, steps).open_device_count == s.open_device_count + count_begins(steps) - count_ends(
            steps,
        ),
    decreases steps.len(),
{
    if steps.len() > 0 {
        lemma_run_fits_prefix(s, steps);
        law_open_count_tracks_waterings(s, steps.drop_last());
    }
}

/// Under any interleaving of requests, ticks and watering tasks, the pump
/// runs only while some device is queued or open.
pub proof fn law_pump_only_while_busy(s: SystemView, steps: Seq<Step>)
    requires
        pump_only_while_busy(s),
        run_fits(s, steps),
    ensures
        pump_only_while_busy(run(s, steps)),
    decreases steps.len(),
{
    if steps.len() > 0 {
        lemma_run_fits_prefix(s, steps);
        law_pump_only_while_busy(s, steps.drop_last());
    }
}

/// Under any interleaving of requests, ticks and watering tasks in which a
/// watering begins only while the pump runs, the pump runs whenever a
/// device is open.
pub proof fn law_pump_runs_through_waterings(s: SystemView, steps: Seq<Step>)
    requires
        pump_runs_while_open(s),
        run_fits(s, steps),
        forall|k: int|
            0 <= k < steps.len() && #[trigger] steps[k] is Begin ==> run(s, steps.take(k)).pump.status,
    ensures
        pump_runs_while_open(run(s, steps)),
    decreases steps.len(),
{
    if steps.len() > 0 {
        let init = steps.drop_last();
        lemma_run_fits_prefix(s, steps);
        assert forall|k: int| 0 <= k < init.len() && #[trigger] init[k] is Begin implies run(
            s,
            init.take(k),
        ).pump.status by {
            assert(init.take(k) == steps.take(k));
            assert(init[k] == steps[k]);
        }
        law_pump_runs_through_waterings(s, init);
        assert(steps.take(steps.len() - 1) == init);
        assert(steps[steps.len() - 1] == steps.last());
    }
}

/// The devices of a batch begin watering, one after the other.
pub open spec fn begin_all(s: SystemView, batch: Seq<DeviceView>) -> SystemView
    decreases batch.len(),
{
    if batch.len() == 0 {
        s
    } else {
        begin_all(s, batch.drop_last()).begin(batch.last())
    }
}

/// `n` waterings end, one after the other.
pub open spec fn end_times(s: SystemView, n: nat) -> SystemView
    decreases n,
{
    if n == 0 {
        s
    } else {
        end_times(s, (n - 1) as nat).end()
    }
}

proof fn lemma_begin_all(s: SystemView, batch: Seq<DeviceView>)
    requires
        s.open_device_count + batch.len() <= u8::MAX,
    ensures
        begin_all(s, batch).open_device_count == s.open_device_count + batch.len(),
        begin_all(s, batch).pump == s.pump,
        forall|k: int|
            0 <= k < begin_all(s, batch).to_trigger.len() ==> s.to_trigger.contains(
                #[trigger] begin_all(s, batch).to_trigger[k],
            ) && forall|j: int|
                0 <= j < batch.len() ==> begin_all(s, batch).to_trigger[k].pin != (
                #[trigger] batch[j]).pin,
    decreases batch.len(),
{
    if batch.len() > 0 {
        let init = batch.drop_last();
        lemma_begin_all(s, init);
        let t = begin_all(s, init);
        let r = begin_all(s, batch);
        law_without_pin(t.to_trigger, batch.last().pin);
        assert forall|k: int| 0 <= k < r.to_trigger.len() implies s.to_trigger.contains(
            #[trigger] r.to_trigger[k],
        ) && forall|j: int| 0 <= j < batch.len() ==> r.to_trigger[k].pin != (
        #[trigger] batch[j]).pin by {
            let x = r.to_trigger[k];
            let w = choose|w: int| 0 <= w < t.to_trigger.len() && t.to_trigger[w] == x;
            assert(t.to_trigger[w] == x);
            assert forall|j: int| 0 <= j < batch.len() implies x.pin != (#[trigger] batch[j]).pin by {
                if j < batch.len() - 1 {
                    assert(init[j] == batch[j]);
                } else {
                    assert(batch[j] == batch.last());
                }
            }
        }
    }
}

proof fn lemma_end_times(t: SystemView, n: nat)
    requires
        n <= t.open_device_count,
    ensures
        end_times(t, n).open_device_count == t.open_device_count - n,
        n > 0 && n == t.open_device_count ==> !end_times(t, n).pump.status,
        end_times(t, n).to_trigger == t.to_trigger,
    decreases n,
{
    if n > 0 {
        lemma_end_times(t, (n - 1) as nat);
    }
}

/// When every queued device begins watering and then every one of those
/// waterings ends, the queue is empty, as many devices are open as before,
/// and the pump stops if none was open before.
pub proof fn law_batch_round_trip(s: SystemView)
    requires
        s.open_device_count + s.to_trigger.len() <= u8::MAX,
    ensures
        begin_all(s, s.to_trigger).to_trigger.len() == 0,
        begin_all(s, s.to_trigger).open_device_count == s.open_device_count + s.to_trigger.len(),
        end_times(begin_all(s, s.to_trigger), s.to_trigger.len()).open_device_count
            == s.open_device_count,
        end_times(begin_all(s, s.to_trigger), s.to_trigger.len()).to_trigger.len() == 0,
        s.open_device_count == 0 && s.to_trigger.len() > 0 ==> !end_times(
            begin_all(s, s.to_trigger),
            s.to_trigger.len(),
        ).pump.status,
{
    let batch = s.to_trigger;
    lemma_begin_all(s, batch);
    let t = begin_all(s, batch);
    if t.to_trigger.len() > 0 {
        let x = t.to_trigger[0];
        assert(s.to_trigger.contains(x));
        let j = choose|j: int| 0 <= j < batch.len() && batch[j] == x;
        assert(x.pin != batch[j].pin);
    }
    lemma_end_times(t, batch.len());
}

/// Every step but the removal of a pin outside a watering keeps the pump
/// running only while some device is queued or open, and so does a
/// watering by position.
pub proof fn law_steps_keep_pump_busy(s: SystemView, d: DeviceView, id: u32, sender: Sender<()>, i: int, now: Timestamp)
    requires
        pump_only_while_busy(s),
    ensures
        pump_only_while_busy(s.register(d)),
        pump_only_while_busy(s.check()),
        s.open_device_count < u8::MAX ==> pump_only_while_busy(s.begin(d)),
        s.open_device_count > 0 ==> pump_only_while_busy(s.end()),
        pump_only_while_busy(s.add_listener(id, sender)),
        pump_only_while_busy(s.remove_listener(id)),
        0 <= i < s.devices.len() && s.open_device_count < u8::MAX ==> pump_only_while_busy(
            s.start_at(i),
        ),
        0 <= i < s.devices.len() && s.open_device_count > 0 ==> pump_only_while_busy(
            s.finish_at(i, now),
        ),
{
}

proof fn lemma_run_fits_extend(s: SystemView, steps: Seq<Step>)
    requires
        steps.len() > 0,
        run_fits(s, steps.drop_last()),
        step_fits(run(s, steps.drop_last()), steps.last()),
    ensures
        run_fits(s, steps),
{
    let init = steps.drop_last();
    assert forall|k: int| 0 <= k < steps.len() implies step_fits(
        run(s, steps.take(k)),
        #[trigger] steps[k],
    ) by {
        if k < init.len() {
            assert(init.take(k) == steps.take(k));
            assert(init[k] == steps[k]);
            assert(step_fits(run(s, init.take(k)), init[k]));
        } else {
            assert(steps.take(k) == init);
            assert(steps[k] == steps.last());
        }
    }
}

/// How many devices the ticks among the steps handed out to be opened: each
/// tick hands out the devices queued when it runs.
pub open spec fn handed_out(s: SystemView, steps: Seq<Step>) -> nat
    decreases steps.len(),
{
    if steps.len() == 0 {
        0
    } else {
        handed_out(s, steps.drop_last()) + if steps.last() is Tick {
            run(s, steps.drop_last()).to_trigger.len()
        } else {
            0nat
        }
    }
}

/// Waterings in flight stay within what the open count holds: when every
/// watering ends after it began, and no watering begins while `u8::MAX`
/// are open, then every begin and every end fits, and the open count is the
/// number of waterings in flight.
pub proof fn law_in_flight_fits(s: SystemView, steps: Seq<Step>)
    requires
        s.open_device_count == 0,
        forall|k: int|
            0 <= k < steps.len() && #[trigger] steps[k] is Begin ==> count_begins(steps.take(k))
                - count_ends(steps.take(k)) < u8::MAX,
        forall|k: int|
            0 <= k < steps.len() && #[trigger] steps[k] is End ==> count_ends(steps.take(k))
                < count_begins(steps.take(k)),
    ensures
        run_fits(s, steps),
        run(s, steps).open_device_count == count_begins(steps) - count_ends(steps),
    decreases steps.len(),
{
    if steps.len() > 0 {
        let init = steps.drop_last();
        let n = steps.len() - 1;
        assert forall|k: int| 0 <= k < init.len() && #[trigger] init[k] is Begin implies count_begins(
            init.take(k),
        ) - count_ends(init.take(k)) < u8::MAX by {
            assert(init.take(k) == steps.take(k));
            assert(init[k] == steps[k]);
        }
        assert forall|k: int| 0 <= k < init.len() && #[trigger] init[k] is End implies count_ends(
            init.take(k),
        ) < count_begins(init.take(k)) by {
            assert(init.take(k) == steps.take(k));
            assert(init[k] == steps[k]);
        }
        law_in_flight_fits(s, init);
        assert(steps.take(n) == init);
        assert(steps[n] == steps.last());
        lemma_run_fits_extend(s, steps);
        law_open_count_tracks_waterings(s, steps);
    }
}

/// Starting with the pump off and nothing open, under any interleaving of
/// requests, ticks and watering tasks in which each watering that begins is
/// one that a tick handed out, the pump runs only while some device handed
/// out by a tick has not finished watering; the waterings begun never
/// outnumber those handed out, nor the ended those begun.
pub proof fn law_pump_only_while_handed_out(s: SystemView, steps: Seq<Step>)
    requires
        !s.pump.status,
        s.open_device_count == 0,
        run_fits(s, steps),
        forall|k: int|
            0 <= k < steps.len() && #[trigger] steps[k] is Begin ==> count_begins(steps.take(k))
                < handed_out(s, steps.take(k)),
    ensures
        run(s, steps).pump.status ==> handed_out(s, steps) > count_ends(steps),
        count_begins(steps) <= handed_out(s, steps),
        count_ends(steps) <= count_begins(steps),
    decreases steps.len(),
{
    law_open_count_tracks_waterings(s, steps);
    if steps.len() > 0 {
        let init = steps.drop_last();
        let n = steps.len() - 1;
        lemma_run_fits_prefix(s, steps);
        assert forall|k: int| 0 <= k < init.len() && #[trigger] init[k] is Begin implies count_begins(
            init.take(k),
        ) < handed_out(s, init.take(k)) by {
            assert(init.take(k) == steps.take(k));
            assert(init[k] == steps[k]);
        }
        law_pump_only_while_handed_out(s, init);
        law_open_count_tracks_waterings(s, init);
        assert(steps.take(n) == init);
        assert(steps[n] == steps.last());
    }
}

/// The due positions at `now` are exactly the positions of the closed
/// devices for which at least one full cycle has passed, to the nanosecond,
/// since their last trigger.
pub proof fn law_due_means_cycle_elapsed(devices: Seq<DeviceView>, now: Timestamp)
    requires
        devices.len() <= usize::MAX,
    ensures
        forall|k: int|
            0 <= k < due_indices(devices, now).len() ==> #[trigger] due_indices(devices, now)[k]
                < devices.len(),
        forall|i: int|
            0 <= i < devices.len() ==> (due_indices(devices, now).contains(i as usize) <==> ((now.secs
                - devices[i].last_trigger.secs) * 1_000_000_000 + now.nanos
                - devices[i].last_trigger.nanos >= devices[i].cycle_ms * 1_000_000
                && !devices[i].status)),
{
    law_due_indices(devices, now);
}

/// A device built from a configuration entry has the entry's identifier,
/// address, pin, name and plants, a cycle of the entry's seconds in
/// milliseconds, the entry's watering duration, and starts closed at the
/// given time.
pub proof fn law_device_from_config(c: DeviceConfigView, now: Timestamp)
    requires
        c.durations_in_range(),
    ensures
        device_from_config(c, now).cycle_ms == c.cycle_sec * 1000,
        device_from_config(c, now).duration_ms == c.duration_ms,
        device_from_config(c, now).id == c.device_id,
        device_from_config(c, now).ip == c.ip,
        device_from_config(c, now).pin == c.pin,
        device_from_config(c, now).name == c.name,
        device_from_config(c, now).plants == c.plants,
        device_from_config(c, now).last_trigger == now,
        !device_from_config(c, now).status,
{
    assert(-9223372036854775 <= c.cycle_sec <= 9223372036854775);
    assert(i64::MIN <= c.cycle_sec * 1000 <= i64::MAX) by (nonlinear_arith)
        requires
            -9223372036854775 <= c.cycle_sec <= 9223372036854775,
    ;
}

/// Completing a device's cycle fires the listener kept for it, whatever the
/// open count or the pump, and changes nothing else but dropping that
/// listener; with no listener kept, it changes nothing.
pub proof fn law_complete_fires_kept_listener(s: SystemView, id: u32)
    ensures
        s.listeners.contains_key(id) ==> {
            &&& s.remove_listener(id).fired == s.fired.push(s.listeners[id])
            &&& s.remove_listener(id).listeners == s.listeners.remove(id)
            &&& s.remove_listener(id).open_device_count == s.open_device_count
            &&& s.remove_listener(id).pump == s.pump
            &&& s.remove_listener(id).to_trigger == s.to_trigger
            &&& s.remove_listener(id).pairs == s.pairs
        },
        !s.listeners.contains_key(id) ==> s.remove_listener(id) == s,
{
    if !s.listeners.contains_key(id) {
        assert(s.listeners.remove(id) == s.listeners);
    }
}

/// A second completion of the same cycle fires nothing and changes nothing:
/// a listener is fired at most once.
pub proof fn law_complete_fires_at_most_once(s: SystemView, id: u32)
    ensures
        s.remove_listener(id).remove_listener(id) == s.remove_listener(id),
        s.remove_listener(id).remove_listener(id).fired.len() <= s.fired.len() + 1,
{
    assert(s.listeners.remove(id).remove(id) == s.listeners.remove(id));
}

/// Whether a step keeps or fires a listener of `id`.
pub open spec fn touches_listener(step: Step, id: u32) -> bool {
    match step {
        Step::Listen(j, _) => j == id,
        Step::Complete(j) => j == id,
        _ => false,
    }
}

/// After an activation keeps `sender` for a device and hands out `receiver`,
/// made together, and any steps that keep or fire no other listener of that
/// device, the sender is still kept, and completing the device's cycle fires
/// exactly the sender that pairs with the handed-out receiver.
pub proof fn law_activation_reaches_waiter(
    s: SystemView,
    id: u32,
    sender: Sender<()>,
    receiver: Receiver<()>,
    steps: Seq<Step>,
)
    requires
        forall|k: int| 0 <= k < steps.len() ==> !touches_listener(#[trigger] steps[k], id),
    ensures
        run(s.watch(id, sender, receiver), steps).listeners.contains_key(id),
        run(s.watch(id, sender, receiver), steps).listeners[id] == sender,
        run(s.watch(id, sender, receiver), steps).pairs.contains((sender, receiver)),
        run(s.watch(id, sender, receiver), steps).remove_listener(id).fired.last() == sender,
    decreases steps.len(),
{
    let w = s.watch(id, sender, receiver);
    if steps.len() == 0 {
        assert(w.pairs[w.pairs.len() - 1] == (sender, receiver));
    } else {
        let init = steps.drop_last();
        assert forall|k: int| 0 <= k < init.len() implies !touches_listener(#[trigger] init[k], id) by {
            assert(init[k] == steps[k]);
        }
        law_activation_reaches_waiter(s, id, sender, receiver, init);
        let t = run(w, init);
        assert(steps[steps.len() - 1] == steps.last());
        assert(!touches_listener(steps.last(), id));
        let j = choose|j: int| 0 <= j < t.pairs.len() && t.pairs[j] == (sender, receiver);
        let u = apply(t, steps.last());
        assert(u.pairs.len() >= t.pairs.len());
        assert(u.pairs[j] == t.pairs[j]);
    }
}

} // verus!
