use datapoint_tui::config::{
    BitfieldConfig, Config, DataType, DatapointConfig, Endianness, RegisterType, ServerConfig,
    default_data_type, default_endianness, default_register_type, default_scan_interval,
    default_unit_id,
};
use datapoint_tui::datapoint::{DataValue, ErrorKind};
use datapoint_tui::scanner::{ReadOutcome, Scanner};

fn entry(name: &str, address: u16, length: u16, data_type: DataType) -> DatapointConfig {
    DatapointConfig {
        name: name.to_string(),
        address,
        length,
        data_type,
        description: None,
        bitfields: None,
        register_type: RegisterType::Holding,
    }
}

fn config(entries: Vec<DatapointConfig>, endianness: Endianness) -> Config {
    Config {
        server: ServerConfig {
            protocol: "modbus".to_string(),
            host: "127.0.0.1".to_string(),
            port: 502,
            unit_id: 1,
            endianness,
        },
        datapoints: entries,
        scan_interval_ms: 1000,
    }
}

#[test]
fn defaults_match_absent_config_fields() {
    assert_eq!(default_scan_interval(), 1000);
    assert_eq!(default_unit_id(), 1);
    assert!(matches!(default_endianness(), Endianness::Big));
    assert!(matches!(default_data_type(), DataType::U16));
    assert!(matches!(default_register_type(), RegisterType::Holding));
}

#[test]
fn new_scanner_builds_one_record_per_entry() {
    let mut e = entry("flags", 10, 1, DataType::Bitfield);
    e.bitfields = Some(vec![
        BitfieldConfig { bit: 1, name: "a".to_string(), description: None },
        BitfieldConfig { bit: 3, name: "b".to_string(), description: None },
    ]);
    let cfg = config(
        vec![entry("temp", 0, 1, DataType::U16), e],
        Endianness::Big,
    );
    let scanner = Scanner::new(cfg);
    let dps = scanner.get_datapoints();
    assert_eq!(dps.len(), 2);
    assert_eq!(dps[0].name, "temp");
    assert_eq!(dps[0].address, 0);
    assert!(dps[0].value.is_none());
    assert!(dps[0].error.is_none());
    assert!(dps[0].last_updated.is_none());
    assert_eq!(dps[1].name, "flags");
    assert_eq!(
        dps[1].bitfield_names,
        Some(vec![(1u8, "a".to_string()), (3u8, "b".to_string())])
    );
}

#[test]
fn successful_read_updates_value_and_clears_error() {
    let cfg = config(vec![entry("count", 0, 2, DataType::U32)], Endianness::Big);
    let mut scanner = Scanner::new(cfg);
    scanner.apply_read_outcome(0, ReadOutcome::Timeout, 10);
    assert!(scanner.get_datapoints()[0].error.is_some());

    scanner.apply_read_outcome(0, ReadOutcome::Words(vec![0x0001, 0x0002]), 20);
    let dp = &scanner.get_datapoints()[0];
    assert_eq!(dp.value, Some(DataValue::U32(0x0001_0002)));
    assert!(dp.error.is_none());
    assert_eq!(dp.last_updated, Some(20));
}

#[test]
fn little_endian_setting_flips_word_order() {
    let cfg = config(vec![entry("count", 0, 2, DataType::U32)], Endianness::Little);
    let mut scanner = Scanner::new(cfg);
    scanner.apply_read_outcome(0, ReadOutcome::Words(vec![0x0001, 0x0002]), 20);
    assert_eq!(
        scanner.get_datapoints()[0].value,
        Some(DataValue::U32(0x0002_0001))
    );
}

#[test]
fn short_read_for_wide_type_is_a_no_op() {
    let cfg = config(vec![entry("count", 0, 2, DataType::U32)], Endianness::Big);
    let mut scanner = Scanner::new(cfg);
    scanner.apply_read_outcome(0, ReadOutcome::Words(vec![0x0001, 0x0002]), 20);

    scanner.apply_read_outcome(0, ReadOutcome::Words(Vec::new()), 30);
    let dp = &scanner.get_datapoints()[0];
    assert_eq!(dp.value, Some(DataValue::U32(0x0001_0002)));
    assert!(dp.error.is_none());
    assert_eq!(dp.last_updated, Some(20), "a skipped decode must not restamp");
}

#[test]
fn connection_error_marks_every_datapoint_and_keeps_values() {
    let cfg = config(
        vec![
            entry("a", 0, 1, DataType::U16),
            entry("b", 1, 1, DataType::U16),
            entry("c", 2, 1, DataType::U16),
        ],
        Endianness::Big,
    );
    let mut scanner = Scanner::new(cfg);
    scanner.apply_read_outcome(0, ReadOutcome::Words(vec![7]), 10);

    scanner.apply_connection_error(
        ErrorKind::ConnectionFailed,
        &"connection refused".to_string(),
        50,
    );
    for dp in scanner.get_datapoints() {
        let err = dp.error.as_ref().expect("every datapoint must carry the error");
        assert_eq!(err.kind, ErrorKind::ConnectionFailed);
        assert_eq!(err.detail, "connection refused");
        assert_eq!(dp.last_updated, Some(50));
    }
    assert_eq!(
        scanner.get_datapoints()[0].value,
        Some(DataValue::U16(7)),
        "a prior value must survive a connection error"
    );
}

#[test]
fn failures_are_isolated_per_datapoint() {
    let cfg = config(
        vec![
            entry("d1", 0, 1, DataType::U16),
            entry("d2", 1, 1, DataType::U16),
            entry("d3", 2, 1, DataType::U16),
            entry("d4", 3, 1, DataType::U16),
            entry("d5", 4, 1, DataType::U16),
        ],
        Endianness::Big,
    );
    let mut scanner = Scanner::new(cfg);
    let t = 100;
    for i in 0..5usize {
        if i == 2 {
            scanner.apply_read_outcome(
                i,
                ReadOutcome::Exception("illegal data address".to_string()),
                t,
            );
        } else {
            scanner.apply_read_outcome(i, ReadOutcome::Words(vec![i as u16 + 1]), t);
        }
    }
    let dps = scanner.get_datapoints();
    for (i, dp) in dps.iter().enumerate() {
        if i == 2 {
            assert_eq!(dp.error.as_ref().unwrap().kind, ErrorKind::ProtocolException);
            assert!(dp.value.is_none());
        } else {
            assert_eq!(dp.value, Some(DataValue::U16(i as u16 + 1)));
            assert!(dp.error.is_none());
        }
        assert_eq!(dp.last_updated, Some(t));
    }
}

#[test]
fn read_and_transport_failures_record_their_class() {
    let cfg = config(
        vec![entry("a", 0, 1, DataType::U16), entry("b", 1, 1, DataType::U16)],
        Endianness::Big,
    );
    let mut scanner = Scanner::new(cfg);
    scanner.apply_read_outcome(0, ReadOutcome::TransportError("broken pipe".to_string()), 5);
    scanner.apply_read_outcome(1, ReadOutcome::Timeout, 5);
    let dps = scanner.get_datapoints();
    assert_eq!(dps[0].error.as_ref().unwrap().kind, ErrorKind::ReadError);
    assert_eq!(dps[0].error.as_ref().unwrap().detail, "broken pipe");
    assert_eq!(dps[1].error.as_ref().unwrap().kind, ErrorKind::ReadTimeout);
}

#[test]
fn two_successful_cycles_leave_non_decreasing_timestamps() {
    let cfg = config(
        vec![entry("a", 0, 1, DataType::U16), entry("b", 1, 2, DataType::U32)],
        Endianness::Big,
    );
    let mut scanner = Scanner::new(cfg);
    let t1 = 1000;
    scanner.apply_read_outcome(0, ReadOutcome::Words(vec![1]), t1);
    scanner.apply_read_outcome(1, ReadOutcome::Words(vec![0, 2]), t1);
    let first: Vec<i64> = scanner
        .get_datapoints()
        .iter()
        .map(|dp| dp.last_updated.unwrap())
        .collect();

    let t2 = 2000;
    scanner.apply_read_outcome(0, ReadOutcome::Words(vec![3]), t2);
    scanner.apply_read_outcome(1, ReadOutcome::Words(Vec::new()), t2);
    let second: Vec<i64> = scanner
        .get_datapoints()
        .iter()
        .map(|dp| dp.last_updated.unwrap())
        .collect();

    for (u1, u2) in first.iter().zip(second.iter()) {
        assert!(u1 <= u2);
    }
}

#[test]
fn snapshot_matches_current_state() {
    let cfg = config(
        vec![entry("a", 0, 1, DataType::U16), entry("b", 1, 1, DataType::I16)],
        Endianness::Big,
    );
    let mut scanner = Scanner::new(cfg);
    scanner.apply_read_outcome(0, ReadOutcome::Words(vec![9]), 10);
    scanner.apply_read_outcome(1, ReadOutcome::Timeout, 10);

    let snap = scanner.snapshot();
    let live = scanner.get_datapoints();
    assert_eq!(snap.len(), live.len());
    for (s, l) in snap.iter().zip(live.iter()) {
        assert_eq!(s.name, l.name);
        assert_eq!(s.address, l.address);
        assert_eq!(s.value, l.value);
        assert_eq!(s.last_updated, l.last_updated);
        assert_eq!(s.error.is_some(), l.error.is_some());
    }
}

#[test]
fn protocol_check_ignores_ascii_case() {
    for (name, expected) in [
        ("modbus", true),
        ("MODBUS", true),
        ("Modbus", true),
        ("tcp", false),
        ("modbusx", false),
        ("", false),
    ] {
        let mut cfg = config(vec![entry("a", 0, 1, DataType::U16)], Endianness::Big);
        cfg.server.protocol = name.to_string();
        let scanner = Scanner::new(cfg);
        assert_eq!(scanner.protocol_is_supported(), expected, "protocol {:?}", name);
    }
}

#[test]
fn read_request_reflects_the_schema_entry() {
    let mut e = entry("pressure", 42, 2, DataType::F32);
    e.register_type = RegisterType::Input;
    let cfg = config(vec![e], Endianness::Big);
    let scanner = Scanner::new(cfg);
    assert_eq!(scanner.datapoint_count(), 1);
    let (address, length, bank) = scanner.read_request(0);
    assert_eq!(address, 42);
    assert_eq!(length, 2);
    assert!(matches!(bank, RegisterType::Input));
}
