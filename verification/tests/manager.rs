use dualsense_monitor::device_manager::{BatteryStatus, DeviceManager, DeviceManagerEvent};
use dualsense_monitor::session::{DeviceId, DualSense, ReadOutcome};

fn opened(id: u64, total_len: usize) -> DualSense {
    let (device, _) =
        DualSense::handshake(DeviceId(id), ReadOutcome::Data(vec![0u8; total_len])).unwrap();
    device
}

fn usb_report_with_status(status: u8) -> Vec<u8> {
    let mut buf = vec![0u8; 64];
    buf[1 + 52] = status;
    buf
}

#[test]
fn insert_emits_connected_once() {
    let mut manager = DeviceManager::new();
    let events = manager.insert_device(opened(1, 64));
    assert_eq!(
        events,
        vec![DeviceManagerEvent::Connected(
            DeviceId(1),
            "DualSense USB".to_string()
        )]
    );
    assert!(manager.contains_device(DeviceId(1)));
    assert_eq!(manager.device_count(), 1);
}

#[test]
fn insert_is_idempotent() {
    let mut manager = DeviceManager::new();
    manager.insert_device(opened(1, 64));
    let events = manager.insert_device(opened(1, 78));
    assert!(events.is_empty());
    assert_eq!(manager.device_count(), 1);
}

#[test]
fn close_removes_and_emits_disconnected() {
    let mut manager = DeviceManager::new();
    manager.insert_device(opened(1, 64));
    manager.insert_device(opened(2, 78));
    let events = manager.close_device(DeviceId(1));
    assert_eq!(events, vec![DeviceManagerEvent::Disconnected(DeviceId(1))]);
    assert!(!manager.contains_device(DeviceId(1)));
    assert!(manager.contains_device(DeviceId(2)));
}

#[test]
fn close_of_unknown_device_still_emits_disconnected() {
    let mut manager = DeviceManager::new();
    let events = manager.close_device(DeviceId(42));
    assert_eq!(events, vec![DeviceManagerEvent::Disconnected(DeviceId(42))]);
    assert_eq!(manager.device_count(), 0);
}

#[test]
fn zero_length_read_disconnects_with_exactly_one_event() {
    let mut manager = DeviceManager::new();
    manager.insert_device(opened(1, 64));
    let events = manager.update_device_status(DeviceId(1), ReadOutcome::Data(Vec::new()));
    assert_eq!(events, vec![DeviceManagerEvent::Disconnected(DeviceId(1))]);
    assert!(!manager.contains_device(DeviceId(1)));
    assert_eq!(manager.device_count(), 0);
}

#[test]
fn read_timeout_disconnects() {
    let mut manager = DeviceManager::new();
    manager.insert_device(opened(1, 64));
    let events = manager.update_device_status(DeviceId(1), ReadOutcome::TimedOut);
    assert_eq!(events, vec![DeviceManagerEvent::Disconnected(DeviceId(1))]);
    assert!(!manager.contains_device(DeviceId(1)));
}

#[test]
fn malformed_read_is_swallowed_and_keeps_the_session() {
    let mut manager = DeviceManager::new();
    manager.insert_device(opened(1, 64));
    let events = manager.update_device_status(DeviceId(1), ReadOutcome::Data(vec![0u8; 17]));
    assert!(events.is_empty());
    assert!(manager.contains_device(DeviceId(1)));
}

#[test]
fn successful_read_emits_battery_update() {
    let mut manager = DeviceManager::new();
    manager.insert_device(opened(1, 64));
    let events =
        manager.update_device_status(DeviceId(1), ReadOutcome::Data(usb_report_with_status(0x15)));
    assert_eq!(
        events,
        vec![DeviceManagerEvent::BatteryUpdate(
            DeviceId(1),
            BatteryStatus {
                capacity: 5,
                charging: true
            }
        )]
    );
    assert!(manager.contains_device(DeviceId(1)));
}

#[test]
fn discharging_read_reports_charging_false() {
    let mut manager = DeviceManager::new();
    manager.insert_device(opened(1, 64));
    let events =
        manager.update_device_status(DeviceId(1), ReadOutcome::Data(usb_report_with_status(0x05)));
    assert_eq!(
        events,
        vec![DeviceManagerEvent::BatteryUpdate(
            DeviceId(1),
            BatteryStatus {
                capacity: 5,
                charging: false
            }
        )]
    );
}

#[test]
fn unknown_capacity_is_reported_as_zero() {
    let mut manager = DeviceManager::new();
    manager.insert_device(opened(1, 64));
    let events =
        manager.update_device_status(DeviceId(1), ReadOutcome::Data(usb_report_with_status(0x00)));
    assert_eq!(
        events,
        vec![DeviceManagerEvent::BatteryUpdate(
            DeviceId(1),
            BatteryStatus {
                capacity: 0,
                charging: false
            }
        )]
    );
}

#[test]
fn update_for_unknown_device_is_a_no_op() {
    let mut manager = DeviceManager::new();
    let events =
        manager.update_device_status(DeviceId(5), ReadOutcome::Data(usb_report_with_status(0x07)));
    assert!(events.is_empty());
    assert_eq!(manager.device_count(), 0);
}

#[test]
fn open_all_of_zero_devices_emits_nothing() {
    let mut manager = DeviceManager::new();
    let events = manager.open_all_devices(Vec::new());
    assert!(events.is_empty());
    assert_eq!(manager.device_count(), 0);
}

#[test]
fn open_all_inserts_each_device_once() {
    let mut manager = DeviceManager::new();
    let events = manager.open_all_devices(vec![opened(1, 64), opened(2, 78), opened(1, 64)]);
    assert_eq!(
        events,
        vec![
            DeviceManagerEvent::Connected(DeviceId(1), "DualSense USB".to_string()),
            DeviceManagerEvent::Connected(DeviceId(2), "DualSense BT".to_string()),
        ]
    );
    assert_eq!(manager.device_count(), 2);
}

#[test]
fn snapshot_lists_live_sessions_in_order() {
    let mut manager = DeviceManager::new();
    manager.open_all_devices(vec![opened(3, 64), opened(1, 78), opened(2, 64)]);
    assert_eq!(
        manager.status_snapshot(),
        vec![DeviceId(3), DeviceId(1), DeviceId(2)]
    );
}

#[test]
fn one_hanging_device_does_not_block_the_others() {
    let mut manager = DeviceManager::new();
    manager.open_all_devices(vec![opened(1, 64), opened(2, 64), opened(3, 64)]);
    let targets = manager.status_snapshot();
    let mut events = Vec::new();
    for id in targets {
        let outcome = if id == DeviceId(2) {
            // this device's read hangs past its timeout
            ReadOutcome::TimedOut
        } else {
            ReadOutcome::Data(usb_report_with_status(0x08))
        };
        events.extend(manager.update_device_status(id, outcome));
    }
    let reading = BatteryStatus {
        capacity: 8,
        charging: false,
    };
    assert_eq!(
        events,
        vec![
            DeviceManagerEvent::BatteryUpdate(DeviceId(1), reading),
            DeviceManagerEvent::Disconnected(DeviceId(2)),
            DeviceManagerEvent::BatteryUpdate(DeviceId(3), reading),
        ]
    );
    assert!(manager.contains_device(DeviceId(1)));
    assert!(!manager.contains_device(DeviceId(2)));
    assert!(manager.contains_device(DeviceId(3)));
}

#[test]
fn good_read_updates_cached_transport_kind() {
    let mut manager = DeviceManager::new();
    manager.insert_device(opened(1, 64));
    // the device reappears on Bluetooth without a disconnect notice
    let mut buf = vec![0u8; 78];
    buf[2 + 52] = 0x03;
    let events = manager.update_device_status(DeviceId(1), ReadOutcome::Data(buf));
    assert_eq!(
        events,
        vec![DeviceManagerEvent::BatteryUpdate(
            DeviceId(1),
            BatteryStatus {
                capacity: 3,
                charging: false
            }
        )]
    );
}

#[test]
fn registry_always_matches_the_emitted_trace() {
    // replay a mixed operation sequence and check, after every step, that
    // the live sessions are exactly the identities whose last Connected
    // event has no later Disconnected
    let mut manager = DeviceManager::new();
    let mut trace: Vec<DeviceManagerEvent> = Vec::new();
    let mut steps: Vec<Vec<DeviceManagerEvent>> = Vec::new();
    steps.push(manager.open_all_devices(vec![opened(1, 64), opened(2, 78)]));
    steps.push(manager.insert_device(opened(3, 64)));
    steps.push(manager.close_device(DeviceId(2)));
    steps.push(manager.update_device_status(DeviceId(1), ReadOutcome::Data(Vec::new())));
    steps.push(manager.update_device_status(DeviceId(3), ReadOutcome::Data(usb_report_with_status(0x09))));
    steps.push(manager.insert_device(opened(2, 64)));
    for events in steps {
        trace.extend(events);
    }
    let mut live: Vec<DeviceId> = Vec::new();
    for event in &trace {
        match event {
            DeviceManagerEvent::Connected(id, _) => {
                if !live.contains(id) {
                    live.push(*id);
                }
            }
            DeviceManagerEvent::Disconnected(id) => live.retain(|x| x != id),
            DeviceManagerEvent::BatteryUpdate(_, _) => {}
        }
    }
    live.sort_by_key(|id| id.0);
    let mut registry = manager.status_snapshot();
    registry.sort_by_key(|id| id.0);
    assert_eq!(registry, live);
    assert_eq!(registry, vec![DeviceId(2), DeviceId(3)]);
}
