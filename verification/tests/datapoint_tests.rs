use datapoint_tui::datapoint::{DataValue, Datapoint, ErrorKind, ScanError};

#[test]
fn new_datapoint_starts_empty() {
    let dp = Datapoint::new("temp".to_string(), 100, Some("boiler".to_string()));
    assert_eq!(dp.name, "temp");
    assert_eq!(dp.address, 100);
    assert!(dp.value.is_none());
    assert!(dp.last_updated.is_none());
    assert!(dp.error.is_none());
    assert_eq!(dp.description.as_deref(), Some("boiler"));
    assert!(dp.bitfield_names.is_none());
}

#[test]
fn update_value_at_clears_error() {
    let mut dp = Datapoint::new("temp".to_string(), 100, None);
    dp.update_error_at(ScanError::new(ErrorKind::ReadTimeout, String::new()), 50);
    assert!(dp.error.is_some());
    assert_eq!(dp.last_updated, Some(50));

    dp.update_value_at(DataValue::U16(42), 60);
    assert_eq!(dp.value, Some(DataValue::U16(42)));
    assert!(dp.error.is_none());
    assert_eq!(dp.last_updated, Some(60));
}

#[test]
fn update_error_at_keeps_stale_value() {
    let mut dp = Datapoint::new("temp".to_string(), 100, None);
    dp.update_value_at(DataValue::I16(-5), 10);
    dp.update_error_at(
        ScanError::new(ErrorKind::ProtocolException, "illegal address".to_string()),
        20,
    );
    assert_eq!(dp.value, Some(DataValue::I16(-5)));
    let err = dp.error.as_ref().expect("error should be recorded");
    assert_eq!(err.kind, ErrorKind::ProtocolException);
    assert_eq!(err.detail, "illegal address");
    assert_eq!(dp.last_updated, Some(20));
}

#[test]
fn clocked_updates_stamp_a_timestamp() {
    let mut dp = Datapoint::new("temp".to_string(), 100, None);
    dp.update_value(DataValue::U16(1));
    assert!(dp.last_updated.is_some());
    assert!(dp.error.is_none());
    assert_eq!(dp.value, Some(DataValue::U16(1)));

    dp.update_error(ScanError::new(ErrorKind::ReadError, "broken pipe".to_string()));
    assert!(dp.last_updated.is_some());
    assert_eq!(dp.value, Some(DataValue::U16(1)));
    assert_eq!(dp.error.as_ref().unwrap().kind, ErrorKind::ReadError);
}

#[test]
fn bitfield_status_reports_declared_bits_sorted() {
    let names = vec![(3u8, "b".to_string()), (1u8, "a".to_string())];
    let mut dp = Datapoint::with_bitfields("flags".to_string(), 7, None, names);
    dp.update_value_at(DataValue::Bitfield(0x000A), 5);

    let status = dp.get_bitfield_status().expect("bitfield status expected");
    assert_eq!(
        status,
        vec![(1u8, "a".to_string(), true), (3u8, "b".to_string(), true)]
    );
    assert_eq!((0x000Au16 & (1 << 1)) != 0, status[0].2);
    assert_eq!((0x000Au16 & (1 << 3)) != 0, status[1].2);
}

#[test]
fn bitfield_status_reports_clear_bits() {
    let names = vec![
        (0u8, "run".to_string()),
        (1u8, "alarm".to_string()),
        (15u8, "aux".to_string()),
    ];
    let mut dp = Datapoint::with_bitfields("flags".to_string(), 7, None, names);
    dp.update_value_at(DataValue::Bitfield(0x8001), 5);

    let status = dp.get_bitfield_status().unwrap();
    assert_eq!(
        status,
        vec![
            (0u8, "run".to_string(), true),
            (1u8, "alarm".to_string(), false),
            (15u8, "aux".to_string(), true),
        ]
    );
}

#[test]
fn bitfield_status_absent_without_names_or_value() {
    let mut plain = Datapoint::new("temp".to_string(), 1, None);
    plain.update_value_at(DataValue::Bitfield(0x0001), 5);
    assert!(plain.get_bitfield_status().is_none());

    let named = Datapoint::with_bitfields(
        "flags".to_string(),
        2,
        None,
        vec![(0u8, "run".to_string())],
    );
    assert!(named.get_bitfield_status().is_none());

    let mut wrong_kind = Datapoint::with_bitfields(
        "flags".to_string(),
        3,
        None,
        vec![(0u8, "run".to_string())],
    );
    wrong_kind.update_value_at(DataValue::U16(1), 5);
    assert!(wrong_kind.get_bitfield_status().is_none());
}

#[test]
fn snapshot_is_an_exact_copy() {
    let mut dp = Datapoint::with_bitfields(
        "flags".to_string(),
        9,
        Some("status word".to_string()),
        vec![(2u8, "warm".to_string())],
    );
    dp.update_value_at(DataValue::Bitfield(0x0004), 123);

    let copy = dp.snapshot();
    assert_eq!(copy.name, dp.name);
    assert_eq!(copy.address, dp.address);
    assert_eq!(copy.value, dp.value);
    assert_eq!(copy.last_updated, dp.last_updated);
    assert_eq!(copy.description, dp.description);
    assert_eq!(copy.bitfield_names, dp.bitfield_names);
    assert!(copy.error.is_none());
}

#[test]
fn type_labels_name_each_kind() {
    assert_eq!(DataValue::U16(0).type_label(), "u16");
    assert_eq!(DataValue::I16(0).type_label(), "i16");
    assert_eq!(DataValue::U32(0).type_label(), "u32");
    assert_eq!(DataValue::I32(0).type_label(), "i32");
    assert_eq!(DataValue::F32(0).type_label(), "f32");
    assert_eq!(DataValue::Bitfield(0).type_label(), "bits");
}

#[test]
fn error_kind_labels() {
    assert_eq!(ErrorKind::ConnectionFailed.label(), "CONN FAIL");
    assert_eq!(ErrorKind::ConnectionTimeout.label(), "TIMEOUT");
    assert_eq!(ErrorKind::ProtocolException.label(), "MODBUS ERR");
    assert_eq!(ErrorKind::ReadError.label(), "READ ERR");
    assert_eq!(ErrorKind::ReadTimeout.label(), "READ TMO");
}
