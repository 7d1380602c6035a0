use victorin::config::{Config, DeviceConfig, DeviceRequest, PlantConfig};
use victorin::device::{Device, Pump};
use victorin::handlers::{
    activate_device, create_plant, create_plant_registering, cycle_complete, rejection_reply,
    water_plant, MyError, Status,
};
use victorin::plant::Plant;
use victorin::system::{check_devices, check_due_devices, System};
use victorin::time::Timestamp;

fn ts(secs: i64, nanos: u32) -> Timestamp {
    Timestamp { secs, nanos }
}

fn device_config(id: u32, pin: u8, cycle_sec: i64, duration_ms: i64, plants: &[u32]) -> DeviceConfig {
    DeviceConfig {
        device_id: id,
        ip: format!("10.0.0.{}", id),
        name: format!("Valve {}", id),
        pin,
        cycle_sec,
        duration_ms,
        plants: plants
            .iter()
            .map(|p| PlantConfig { id: *p, name: format!("Plant {}", p) })
            .collect(),
    }
}

fn sample_config() -> Config {
    Config {
        devices: vec![
            device_config(1, 14, 2, 1000, &[1, 2]),
            device_config(2, 15, 10, 8000, &[3, 2]),
            device_config(1, 16, 5, 500, &[]),
        ],
        pump: Pump { pin: 17, ip: "10.0.0.99".to_string(), status: true },
        tick: 250,
    }
}

fn device(id: u32, pin: u8, cycle_ms: i64, last: Timestamp, plants: &[u32]) -> Device {
    Device::new_at(
        id,
        format!("h{}", id),
        pin,
        format!("d{}", id),
        cycle_ms,
        1000,
        plants.iter().map(|p| Plant::new(*p, format!("p{}", p))).collect(),
        last,
    )
}

fn pump() -> Pump {
    Pump::new(Pump { pin: 17, ip: "pump".to_string(), status: false })
}

#[test]
fn init_builds_devices_and_plant_index() {
    let s = System::init(sample_config());
    assert_eq!(s.devices.len(), 3);
    assert_eq!(s.devices[0].cycle_ms, 2000);
    assert_eq!(s.devices[1].cycle_ms, 10000);
    assert_eq!(s.devices[1].duration_ms, 8000);
    assert!(!s.pump.status);
    assert_eq!(s.pump.pin, 17);
    assert_eq!(s.tick_ms, 250);
    assert_eq!(s.open_device_count, 0);
    assert_eq!(s.plant_devices.len(), 3);
    assert_eq!(s.plant_devices[&1].pin, 14);
    // plant 2 is watered by both devices: the later one wins
    assert_eq!(s.plant_devices[&2].pin, 15);
    assert_eq!(s.plant_devices[&3].pin, 15);
    assert!(s.queued_devices().is_empty());
}

#[test]
fn register_and_deregister_by_pin() {
    let mut s = System::from_devices(vec![], pump(), 100);
    s.register_device(device(1, 14, 0, ts(0, 0), &[]));
    s.register_device(device(2, 15, 0, ts(0, 0), &[]));
    s.register_device(device(3, 14, 0, ts(0, 0), &[]));
    let q = s.queued_devices();
    assert_eq!(q.iter().map(|d| d.id).collect::<Vec<_>>(), vec![1, 2, 3]);
    let probe = device(9, 14, 0, ts(0, 0), &[]);
    s.deregister_device(&probe);
    let q = s.queued_devices();
    assert_eq!(q.iter().map(|d| d.id).collect::<Vec<_>>(), vec![2]);
    s.deregister_device(&probe);
    assert_eq!(s.queued_devices().len(), 1);
}

#[test]
fn tick_opens_queued_devices_and_starts_pump() {
    let mut s = System::from_devices(vec![], pump(), 100);
    let none = check_devices(&mut s);
    assert!(none.is_empty());
    assert!(!s.pump.status);
    s.register_device(device(1, 14, 0, ts(0, 0), &[]));
    let opened = check_devices(&mut s);
    assert_eq!(opened.len(), 1);
    assert_eq!(opened[0].id, 1);
    assert!(s.pump.status);
    // the queue is left as it was until the watering begins
    assert_eq!(s.queued_devices().len(), 1);
}

#[test]
fn watering_counts_open_devices_and_stops_pump() {
    let mut s = System::from_devices(vec![], pump(), 100);
    s.register_device(device(1, 14, 0, ts(0, 0), &[]));
    s.register_device(device(2, 15, 0, ts(0, 0), &[]));
    let mut batch = check_devices(&mut s);
    assert!(s.pump.status);
    let mut b = batch.pop().unwrap();
    let mut a = batch.pop().unwrap();
    assert_eq!(s.begin_watering(&mut a), 1000);
    assert!(a.status);
    assert_eq!(s.open_device_count, 1);
    assert_eq!(s.queued_devices().len(), 1);
    assert_eq!(s.begin_watering(&mut b), 1000);
    assert_eq!(s.open_device_count, 2);
    assert!(s.queued_devices().is_empty());
    s.end_watering(&mut a, ts(50, 7));
    assert_eq!(s.open_device_count, 1);
    assert!(s.pump.status);
    assert!(!a.status);
    assert_eq!(a.last_trigger, ts(50, 7));
    s.end_watering(&mut b, ts(51, 0));
    assert_eq!(s.open_device_count, 0);
    assert!(!s.pump.status);
}

#[test]
fn negative_duration_sleeps_as_unsigned_bits() {
    let mut s = System::from_devices(vec![], pump(), 100);
    let mut d = Device::new_at(1, "h".to_string(), 3, "d".to_string(), 0, -1, vec![], ts(0, 0));
    assert_eq!(s.begin_watering(&mut d), u64::MAX);
}

#[test]
fn due_devices_by_cycle() {
    let devices = vec![
        device(1, 14, 2000, ts(100, 0), &[]),
        device(2, 15, 10000, ts(100, 0), &[]),
        device(3, 16, 2000, ts(99, 0), &[]),
    ];
    let mut s = System::from_devices(devices, pump(), 250);
    assert_eq!(s.due_devices(&ts(101, 0)), vec![2]);
    assert_eq!(s.due_devices(&ts(102, 0)), vec![0, 2]);
    assert_eq!(s.due_devices(&ts(110, 0)), vec![0, 1, 2]);
    let due = check_due_devices(&mut s, &ts(102, 0));
    assert_eq!(due, vec![0, 2]);
    assert!(s.pump.status);
    assert_eq!(s.start_device_at(0), 1000);
    assert!(s.devices[0].status);
    assert_eq!(s.open_device_count, 1);
    // an open device is never due
    assert_eq!(s.due_devices(&ts(1000, 0)), vec![1, 2]);
    s.finish_device_at(0, ts(103, 0));
    assert!(!s.devices[0].status);
    assert_eq!(s.devices[0].last_trigger, ts(103, 0));
    assert_eq!(s.open_device_count, 0);
    assert!(!s.pump.status);
    assert_eq!(s.due_devices(&ts(104, 0)), vec![2]);
}

#[test]
fn due_tick_without_due_devices_changes_nothing() {
    let mut s = System::from_devices(vec![device(1, 14, 2000, ts(100, 0), &[])], pump(), 250);
    let due = check_due_devices(&mut s, &ts(100, 0));
    assert!(due.is_empty());
    assert!(!s.pump.status);
}

#[test]
fn listener_fires_on_completion() {
    let mut s = System::from_devices(vec![], pump(), 100);
    let (tx, mut rx) = tokio::sync::oneshot::channel::<()>();
    s.register_cycle_complete_listener(5, tx);
    s.complete_cycle(4);
    assert!(rx.try_recv().is_err());
    s.complete_cycle(5);
    assert_eq!(rx.try_recv(), Ok(()));
    // a second completion finds nobody waiting
    s.complete_cycle(5);
}

#[test]
fn remote_valve_request_uses_the_cycle() {
    let s = System::from_devices(vec![], pump(), 100);
    let d = device(1, 14, 10500, ts(0, 0), &[]);
    let r = s.activate_remote_valve(&d);
    assert_eq!(r.url, "http://h1:8080/activate");
    assert_eq!(r.pin_field, "device");
    assert_eq!(r.pin, 14);
    assert_eq!(r.duration_secs, 10);
}

#[test]
fn lookups() {
    let s = System::init(sample_config());
    assert_eq!(s.device_for_plant(3).unwrap().id, 2);
    assert!(s.device_for_plant(42).is_none());
    assert_eq!(s.find_device(1).unwrap().pin, 14);
    assert!(s.find_device(7).is_none());
}

#[test]
fn water_plant_queues_its_device() {
    let mut s = System::init(sample_config());
    assert_eq!(water_plant(&PlantConfig { id: 1, name: "x".to_string() }, &mut s), Status::Success);
    assert_eq!(s.queued_devices()[0].pin, 14);
    assert_eq!(water_plant(&PlantConfig { id: 77, name: "x".to_string() }, &mut s), Status::NotFound);
    assert_eq!(s.queued_devices().len(), 1);
}

#[test]
fn create_plant_answers_created() {
    let s = System::init(sample_config());
    assert_eq!(create_plant(&PlantConfig { id: 77, name: "new".to_string() }, &s), Status::Created);
}

#[test]
fn create_plant_registering_queues_or_refuses() {
    let mut s = System::init(sample_config());
    assert_eq!(create_plant_registering(&PlantConfig { id: 2, name: "x".to_string() }, &mut s), Status::Created);
    assert_eq!(s.queued_devices()[0].pin, 15);
    assert_eq!(create_plant_registering(&PlantConfig { id: 0, name: "x".to_string() }, &mut s), Status::NotFound);
    assert_eq!(s.queued_devices().len(), 1);
}

#[test]
fn activate_device_queues_and_waits_for_completion() {
    let mut s = System::init(sample_config());
    let (st, rx) = activate_device(&DeviceRequest { device_id: 1 }, &mut s);
    assert_eq!(st, Status::Accepted);
    let mut rx = rx.unwrap();
    // the first device with that identifier is taken
    assert_eq!(s.queued_devices()[0].pin, 14);
    assert!(rx.try_recv().is_err());
    assert_eq!(cycle_complete(&DeviceRequest { device_id: 1 }, &mut s), Status::Success);
    assert_eq!(rx.try_recv(), Ok(()));
    let (st, rx) = activate_device(&DeviceRequest { device_id: 9 }, &mut s);
    assert_eq!(st, Status::NotFound);
    assert!(rx.is_none());
    assert_eq!(s.queued_devices().len(), 1);
}

#[test]
fn status_codes_and_error_messages() {
    assert_eq!(Status::Success.code(), 200);
    assert_eq!(Status::Created.code(), 201);
    assert_eq!(Status::Accepted.code(), 202);
    assert_eq!(Status::NotFound.code(), 404);
    assert_eq!(MyError::InvalidRequest.message(), "Invalid Request");
    assert_eq!(MyError::InternalError.message(), "Internal Server Error");
}

#[test]
fn rejection_replies() {
    assert_eq!(rejection_reply(Some(MyError::InvalidRequest)), Some((400, "Invalid request")));
    assert_eq!(rejection_reply(Some(MyError::InternalError)), Some((500, "Internal server error")));
    assert_eq!(rejection_reply(None), None);
}

#[test]
fn a_new_listener_replaces_the_old_one() {
    let mut s = System::from_devices(vec![], pump(), 100);
    let (tx1, mut rx1) = tokio::sync::oneshot::channel::<()>();
    let (tx2, mut rx2) = tokio::sync::oneshot::channel::<()>();
    s.register_cycle_complete_listener(3, tx1);
    s.register_cycle_complete_listener(3, tx2);
    // the replaced sender is dropped
    assert!(matches!(rx1.try_recv(), Err(tokio::sync::oneshot::error::TryRecvError::Closed)));
    s.complete_cycle(3);
    assert_eq!(rx2.try_recv(), Ok(()));
}

#[test]
fn queued_batch_begun_and_ended_restores_the_count() {
    let mut s = System::from_devices(vec![], pump(), 100);
    s.register_device(device(1, 14, 0, ts(0, 0), &[]));
    s.register_device(device(2, 15, 0, ts(0, 0), &[]));
    s.register_device(device(3, 14, 0, ts(0, 0), &[]));
    let mut batch = check_devices(&mut s);
    for d in batch.iter_mut() {
        s.begin_watering(d);
        // the pump runs only while some device is queued or open
        assert!(s.open_device_count > 0 || !s.queued_devices().is_empty());
    }
    assert!(s.queued_devices().is_empty());
    assert_eq!(s.open_device_count, 3);
    for d in batch.iter_mut() {
        s.end_watering(d, ts(9, 0));
    }
    assert_eq!(s.open_device_count, 0);
    assert!(!s.pump.status);
}

#[test]
fn valve_request_bodies() {
    let d = Device::new_at(1, "h".to_string(), 14, "d".to_string(), 10_500, 8_000, vec![], ts(0, 0));
    assert_eq!(d.activation_request().body(), r#"{"device_gpio":14,"duration":8}"#);
    let s = System::from_devices(vec![], pump(), 100);
    assert_eq!(s.activate_remote_valve(&d).body(), r#"{"device":14,"duration":10}"#);
    let neg = Device::new_at(1, "h".to_string(), 3, "d".to_string(), 0, -2_500, vec![], ts(0, 0));
    assert_eq!(neg.activation_request().body(), r#"{"device_gpio":3,"duration":-2}"#);
}

#[test]
fn take_listener_hands_back_the_kept_sender() {
    let mut s = System::from_devices(vec![], pump(), 100);
    let (tx, mut rx) = tokio::sync::oneshot::channel::<()>();
    s.register_cycle_complete_listener(8, tx);
    assert!(s.take_cycle_listener(7).is_none());
    let kept = s.take_cycle_listener(8).unwrap();
    assert!(s.take_cycle_listener(8).is_none());
    kept.send(()).unwrap();
    assert_eq!(rx.try_recv(), Ok(()));
}
