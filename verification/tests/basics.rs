use victorin::config::{Config, DeviceConfig, DevicePin, DeviceRequest, PlantConfig};
use victorin::device::{Device, Pump};
use victorin::plant::{clone_plants, Plant};
use victorin::text::push_decimal;
use victorin::time::{
    duration_from_millis, duration_from_seconds, has_elapsed, whole_seconds, Timestamp,
};

fn ts(secs: i64, nanos: u32) -> Timestamp {
    Timestamp { secs, nanos }
}

#[test]
fn seconds_become_milliseconds() {
    assert_eq!(duration_from_seconds(2), Some(2000));
    assert_eq!(duration_from_seconds(-3), Some(-3000));
    assert_eq!(duration_from_seconds(0), Some(0));
    assert_eq!(duration_from_seconds(i64::MAX / 1000), Some(i64::MAX / 1000 * 1000));
}

#[test]
fn seconds_out_of_range_are_refused() {
    assert_eq!(duration_from_seconds(i64::MAX / 1000 + 1), None);
    assert_eq!(duration_from_seconds(-(i64::MAX / 1000) - 1), None);
    assert_eq!(duration_from_seconds(i64::MIN), None);
}

#[test]
fn milliseconds_are_kept() {
    assert_eq!(duration_from_millis(1000), Some(1000));
    assert_eq!(duration_from_millis(-i64::MAX), Some(-i64::MAX));
    assert_eq!(duration_from_millis(i64::MIN), None);
}

#[test]
fn whole_seconds_round_toward_zero() {
    assert_eq!(whole_seconds(1999), 1);
    assert_eq!(whole_seconds(2000), 2);
    assert_eq!(whole_seconds(-1500), -1);
    assert_eq!(whole_seconds(-2000), -2);
    assert_eq!(whole_seconds(999), 0);
    assert_eq!(whole_seconds(8000), 8);
}

#[test]
fn elapsed_compares_to_the_nanosecond() {
    assert!(has_elapsed(&ts(12, 0), &ts(10, 0), 2000));
    assert!(!has_elapsed(&ts(11, 999_999_999), &ts(10, 0), 2000));
    assert!(has_elapsed(&ts(12, 500), &ts(10, 500), 2000));
    assert!(!has_elapsed(&ts(12, 400), &ts(10, 500), 2000));
    assert!(has_elapsed(&ts(10, 0), &ts(10, 0), 0));
    assert!(has_elapsed(&ts(9, 0), &ts(10, 0), -1000));
    assert!(!has_elapsed(&ts(i64::MIN, 0), &ts(i64::MAX, 999_999_999), 0));
    assert!(has_elapsed(&ts(i64::MAX, 0), &ts(i64::MIN, 0), i64::MAX));
}

#[test]
fn clock_reads_after_the_epoch() {
    let d = Device::new(1, "h".to_string(), 2, "d".to_string(), 0, 0, vec![]);
    let now = d.last_trigger;
    assert!(now.secs > 1_600_000_000);
    assert!(now.nanos < 1_000_000_000);
}

#[test]
fn decimal_rendering() {
    for (n, text) in [(0u32, "0"), (7, "7"), (10, "10"), (305, "305"), (u32::MAX, "4294967295")] {
        let mut s = String::from("x=");
        push_decimal(&mut s, n);
        assert_eq!(s, format!("x={}", text));
    }
}

#[test]
fn plants_from_parts_and_config() {
    let p = Plant::new(3, "Plant 2".to_string());
    assert_eq!(p.id, 3);
    assert_eq!(p.name, "Plant 2");
    let c = PlantConfig { id: 9, name: "Basil".to_string() };
    let q = Plant::from_config(&c);
    assert_eq!(q.id, 9);
    assert_eq!(q.name, "Basil");
    let copies = clone_plants(&vec![p.clone(), q.clone()]);
    assert_eq!(copies.len(), 2);
    assert_eq!(copies[0].id, 3);
    assert_eq!(copies[1].name, "Basil");
}

fn device_config(id: u32, pin: u8, cycle_sec: i64, duration_ms: i64, plants: &[u32]) -> DeviceConfig {
    DeviceConfig {
        device_id: id,
        ip: format!("10.0.0.{}", id),
        name: format!("Valve {}", id),
        pin,
        cycle_sec,
        duration_ms,
        plants: plants
            .iter()
            .map(|p| PlantConfig { id: *p, name: format!("Plant {}", p) })
            .collect(),
    }
}

#[test]
fn device_from_config_converts_durations() {
    let c = device_config(4, 14, 2, 1000, &[1, 2]);
    assert!(c.durations_in_range());
    let d = Device::from_config_at(&c, ts(100, 5));
    assert_eq!(d.id, 4);
    assert_eq!(d.ip, "10.0.0.4");
    assert_eq!(d.pin, 14);
    assert_eq!(d.name, "Valve 4");
    assert_eq!(d.cycle_ms, 2000);
    assert_eq!(d.duration_ms, 1000);
    assert_eq!(d.last_trigger, ts(100, 5));
    assert!(!d.status);
    assert_eq!(d.plants.len(), 2);
    assert_eq!(d.plants[1].id, 2);
    assert_eq!(d.plants[1].name, "Plant 2");
    let e = Device::from_config(&c);
    assert_eq!(e.cycle_ms, 2000);
    assert!(e.last_trigger.secs > 0);
}

#[test]
fn device_config_range_check() {
    assert!(!device_config(1, 1, i64::MAX, 0, &[]).durations_in_range());
    assert!(!device_config(1, 1, 0, i64::MIN, &[]).durations_in_range());
    assert!(device_config(1, 1, -(i64::MAX / 1000), -i64::MAX, &[]).durations_in_range());
    let config = Config {
        devices: vec![device_config(1, 1, 1, 1, &[]), device_config(2, 2, i64::MIN, 1, &[])],
        pump: Pump { pin: 17, ip: "p".to_string(), status: false },
        tick: 250,
    };
    assert!(!config.durations_in_range());
}

#[test]
fn device_new_starts_closed() {
    let d = Device::new_at(1, "h".to_string(), 14, "Valve 1".to_string(), 2000, 1000, vec![], ts(1, 2));
    assert!(!d.status);
    assert_eq!(d.last_trigger, ts(1, 2));
    let e = Device::new(1, "h".to_string(), 15, "Valve 2".to_string(), 10000, 8000, vec![Plant::new(3, "Plant 2".to_string())]);
    assert!(!e.status);
    assert_eq!(e.plants[0].id, 3);
    assert_eq!(e.cycle_ms, 10000);
}

#[test]
fn device_activation_and_deactivation() {
    let mut d = Device::new_at(7, "192.168.0.25".to_string(), 14, "Valve".to_string(), 2000, 8500, vec![], ts(0, 0));
    let msg = d.mark_activated();
    assert_eq!(msg, "Device 7 activated");
    assert!(d.status);
    d.deactivate();
    assert!(!d.status);
    let r = d.activation_request();
    assert_eq!(r.url, "http://192.168.0.25:8080/activate_device");
    assert_eq!(r.pin_field, "device_gpio");
    assert_eq!(r.pin, 14);
    assert_eq!(r.duration_secs, 8);
    let c = d.clone();
    assert_eq!(c.ip, d.ip);
    assert_eq!(c.duration_ms, 8500);
}

#[test]
fn pump_switches() {
    let mut p = Pump::new(Pump { pin: 17, ip: "1.2.3.4".to_string(), status: true });
    assert!(!p.status);
    assert_eq!(p.pin, 17);
    assert_eq!(p.ip, "1.2.3.4");
    p.activate();
    assert!(p.status);
    p.activate();
    assert!(p.status);
    p.deactivate();
    assert!(!p.status);
    p.deactivate();
    assert!(!p.status);
}

#[test]
fn request_bodies_hold_plain_values() {
    let r = DeviceRequest { device_id: 3 };
    let p = DevicePin { device_gpio: 14 };
    assert_eq!(r.device_id, 3);
    assert_eq!(p.device_gpio, 14);
}

#[test]
fn due_stays_due_and_seconds_round_trip() {
    // a cycle of 2 s elapsed at 12 s stays elapsed later
    assert!(has_elapsed(&ts(12, 0), &ts(10, 0), 2000));
    assert!(has_elapsed(&ts(13, 1), &ts(10, 0), 2000));
    let ms = duration_from_seconds(-7).unwrap();
    assert_eq!(whole_seconds(ms), -7);
    let ms = duration_from_seconds(86_400).unwrap();
    assert_eq!(whole_seconds(ms), 86_400);
}

#[test]
fn plant_from_config_reference() {
    let c = PlantConfig { id: 12, name: "Mint".to_string() };
    let p = Plant::from(&c);
    assert_eq!(p.id, 12);
    assert_eq!(p.name, "Mint");
}
