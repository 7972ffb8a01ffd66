use datapoint_tui::datapoint::{DataValue, Datapoint, ErrorKind, ScanError};
use datapoint_tui::ui::{App, HeaderStatus, status_text};

fn sample(n: usize) -> Vec<Datapoint> {
    (0..n)
        .map(|i| Datapoint::new(format!("dp{}", i), i as u16, None))
        .collect()
}

#[test]
fn app_starts_empty_and_unselected() {
    let app = App::new("modbus://127.0.0.1:502".to_string(), 1000);
    assert!(app.datapoints.is_empty());
    assert!(app.selected.is_none());
    assert_eq!(app.server_info, "modbus://127.0.0.1:502");
    assert_eq!(app.scan_interval, 1000);
}

#[test]
fn next_wraps_past_the_last_row() {
    let mut app = App::new(String::new(), 100);
    app.update_datapoints(sample(3));
    app.next();
    assert_eq!(app.selected, Some(0));
    app.next();
    assert_eq!(app.selected, Some(1));
    app.next();
    assert_eq!(app.selected, Some(2));
    app.next();
    assert_eq!(app.selected, Some(0));
}

#[test]
fn previous_wraps_to_the_last_row() {
    let mut app = App::new(String::new(), 100);
    app.update_datapoints(sample(3));
    app.previous();
    assert_eq!(app.selected, Some(0));
    app.previous();
    assert_eq!(app.selected, Some(2));
    app.previous();
    assert_eq!(app.selected, Some(1));
}

#[test]
fn selection_on_empty_table_stays_at_zero() {
    let mut app = App::new(String::new(), 100);
    app.next();
    assert_eq!(app.selected, Some(0));
    app.next();
    assert_eq!(app.selected, Some(0));
    app.previous();
    assert_eq!(app.selected, Some(0));
}

#[test]
fn header_status_waiting_then_connected() {
    let mut app = App::new(String::new(), 100);
    app.update_datapoints(sample(2));
    assert_eq!(app.header_status(), HeaderStatus::Waiting);

    let mut dps = sample(2);
    dps[0].update_value_at(DataValue::U16(1), 10);
    app.update_datapoints(dps);
    assert_eq!(app.header_status(), HeaderStatus::Connected);
}

#[test]
fn header_status_counts_errors() {
    let mut dps = sample(3);
    dps[0].update_value_at(DataValue::U16(1), 10);
    dps[1].update_error_at(ScanError::new(ErrorKind::ReadTimeout, String::new()), 10);
    let mut app = App::new(String::new(), 100);
    app.update_datapoints(dps);
    assert_eq!(app.header_status(), HeaderStatus::SomeErrors(1));
}

#[test]
fn header_status_all_errors() {
    let mut dps = sample(2);
    for dp in dps.iter_mut() {
        dp.update_error_at(
            ScanError::new(ErrorKind::ConnectionFailed, "refused".to_string()),
            10,
        );
    }
    let mut app = App::new(String::new(), 100);
    app.update_datapoints(dps);
    assert_eq!(app.header_status(), HeaderStatus::AllErrors);

    let empty = App::new(String::new(), 100);
    assert_eq!(empty.header_status(), HeaderStatus::Waiting);
}

#[test]
fn row_status_text_follows_state() {
    let mut dp = Datapoint::new("a".to_string(), 0, None);
    assert_eq!(status_text(&dp), "WAITING");
    dp.update_value_at(DataValue::U16(1), 10);
    assert_eq!(status_text(&dp), "OK");
    dp.update_error_at(ScanError::new(ErrorKind::ProtocolException, String::new()), 20);
    assert_eq!(status_text(&dp), "MODBUS ERR");
    dp.update_value_at(DataValue::U16(2), 30);
    assert_eq!(status_text(&dp), "OK");
}
