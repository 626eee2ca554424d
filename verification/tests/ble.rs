use kazam::connectivity::ble::{
    advertising_data, device_name, handle_gatt_event, read_count_message, AdvertiseError,
    ConnectionEvent, GattStep, ADVERTISING_DATA_MAX, BR_EDR_NOT_SUPPORTED,
    LE_GENERAL_DISCOVERABLE,
};

#[test]
fn name_uses_last_two_mac_bytes() {
    assert_eq!(device_name(&[0x10, 0x20, 0x30, 0x40, 0xAB, 0x0C]), b"Kazam_AB0C".to_vec());
    assert_eq!(device_name(&[0x00, 0x00]), b"Kazam_0000".to_vec());
    assert_eq!(device_name(&[0xFF, 0xFF, 0x9a]), b"Kazam_FF9A".to_vec());
}

#[test]
fn name_fits_advertisement() {
    let name = device_name(&[1, 2, 3, 4, 5, 6]);
    assert_eq!(name.len(), 10);
    assert!(advertising_data(&name).is_ok());
}

#[test]
fn advertising_payload_layout() {
    let data = advertising_data(b"Kazam_AB0C").unwrap();
    let mut expected = vec![2, 1, LE_GENERAL_DISCOVERABLE | BR_EDR_NOT_SUPPORTED, 11, 9];
    expected.extend_from_slice(b"Kazam_AB0C");
    assert_eq!(data, expected);
    assert_eq!(data[2], 0x06);
}

#[test]
fn advertising_name_limits() {
    let longest = [b'x'; 26];
    let data = advertising_data(&longest).unwrap();
    assert_eq!(data.len(), ADVERTISING_DATA_MAX);
    assert_eq!(advertising_data(&[b'x'; 27]), Err(AdvertiseError::InsufficientSpace));
    assert_eq!(advertising_data(&[]).unwrap(), vec![2, 1, 6, 1, 9]);
}

#[test]
fn read_count_text() {
    assert_eq!(read_count_message(0), b"Read Count: 0".to_vec());
    assert_eq!(read_count_message(7), b"Read Count: 7".to_vec());
    assert_eq!(read_count_message(42), b"Read Count: 42".to_vec());
    assert_eq!(read_count_message(100), b"Read Count: 100".to_vec());
    assert_eq!(read_count_message(255), b"Read Count: 255".to_vec());
}

const SENSOR: u16 = 12;

#[test]
fn sensor_read_increments_and_sets_value() {
    let mut count = 0u8;
    match handle_gatt_event(SENSOR, &mut count, ConnectionEvent::GattRead { handle: SENSOR }) {
        GattStep::SetValueAndReply(text) => assert_eq!(text, b"Read Count: 1".to_vec()),
        other => panic!("unexpected step {:?}", other),
    }
    assert_eq!(count, 1);
    match handle_gatt_event(SENSOR, &mut count, ConnectionEvent::GattRead { handle: SENSOR }) {
        GattStep::SetValueAndReply(text) => assert_eq!(text, b"Read Count: 2".to_vec()),
        other => panic!("unexpected step {:?}", other),
    }
    assert_eq!(count, 2);
}

#[test]
fn count_wraps_after_255() {
    let mut count = 255u8;
    match handle_gatt_event(SENSOR, &mut count, ConnectionEvent::GattRead { handle: SENSOR }) {
        GattStep::SetValueAndReply(text) => assert_eq!(text, b"Read Count: 0".to_vec()),
        other => panic!("unexpected step {:?}", other),
    }
    assert_eq!(count, 0);
}

#[test]
fn other_events_leave_count() {
    let mut count = 5u8;
    assert!(matches!(
        handle_gatt_event(SENSOR, &mut count, ConnectionEvent::GattRead { handle: 3 }),
        GattStep::Reply
    ));
    assert!(matches!(
        handle_gatt_event(SENSOR, &mut count, ConnectionEvent::GattWrite { handle: SENSOR }),
        GattStep::LogWriteAndReply
    ));
    assert!(matches!(
        handle_gatt_event(SENSOR, &mut count, ConnectionEvent::GattWrite { handle: 3 }),
        GattStep::Reply
    ));
    assert!(matches!(
        handle_gatt_event(SENSOR, &mut count, ConnectionEvent::GattOther),
        GattStep::Reply
    ));
    assert!(matches!(
        handle_gatt_event(SENSOR, &mut count, ConnectionEvent::Other),
        GattStep::Continue
    ));
    assert!(matches!(
        handle_gatt_event(SENSOR, &mut count, ConnectionEvent::Disconnected),
        GattStep::Stop
    ));
    assert_eq!(count, 5);
}

#[test]
fn count_tracks_sensor_reads_over_a_session() {
    let events = [
        ConnectionEvent::GattRead { handle: SENSOR },
        ConnectionEvent::GattWrite { handle: SENSOR },
        ConnectionEvent::GattRead { handle: 1 },
        ConnectionEvent::GattRead { handle: SENSOR },
        ConnectionEvent::Other,
        ConnectionEvent::GattRead { handle: SENSOR },
    ];
    let mut count = 254u8;
    for e in events {
        handle_gatt_event(SENSOR, &mut count, e);
    }
    assert_eq!(count, 1);
}

#[test]
fn advertising_flags_match_host_stack() {
    assert_eq!(LE_GENERAL_DISCOVERABLE, trouble_host::advertise::LE_GENERAL_DISCOVERABLE);
    assert_eq!(BR_EDR_NOT_SUPPORTED, trouble_host::advertise::BR_EDR_NOT_SUPPORTED);
}
