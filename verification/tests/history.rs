use powerpulse::history::BatteryState;
use powerpulse::history::BatteryStatus;
use powerpulse::history::HistoryRow;
use powerpulse::history::decode_status;
use powerpulse::history::encode_status;
use powerpulse::history::parse_state;
use powerpulse::history::state_label;
use powerpulse::timestamp::Timestamp;
use powerpulse::timestamp::days_in_month_of;
use powerpulse::timestamp::format_timestamp;
use powerpulse::timestamp::parse_timestamp;

fn ts(year: u16, month: u8, day: u8, hour: u8, minute: u8, second: u8) -> Timestamp {
    Timestamp { year, month, day, hour, minute, second }
}

#[test]
fn format_is_iso_8601_to_the_second() {
    let v = format_timestamp(&ts(2024, 3, 1, 9, 5, 30));
    assert_eq!(v, b"2024-03-01T09:05:30".to_vec());
}

#[test]
fn parse_reads_the_exact_encoding() {
    let parsed = parse_timestamp(b"2024-03-01T09:05:30");
    assert_eq!(parsed, Some(ts(2024, 3, 1, 9, 5, 30)));
}

#[test]
fn timestamp_round_trips() {
    let samples = [
        ts(0, 1, 1, 0, 0, 0),
        ts(1970, 1, 1, 0, 0, 0),
        ts(2024, 2, 29, 23, 59, 59),
        ts(9999, 12, 31, 23, 59, 59),
    ];
    for t in samples {
        let v = format_timestamp(&t);
        assert_eq!(parse_timestamp(&v), Some(t));
    }
}

#[test]
fn parse_rejects_malformed_input() {
    assert_eq!(parse_timestamp(b""), None);
    assert_eq!(parse_timestamp(b"2024-03-01T09:05:3"), None);
    assert_eq!(parse_timestamp(b"2024-03-01T09:05:300"), None);
    assert_eq!(parse_timestamp(b"2024/03/01T09:05:30"), None);
    assert_eq!(parse_timestamp(b"2024-03-01 09:05:30"), None);
    assert_eq!(parse_timestamp(b"2o24-03-01T09:05:30"), None);
}

#[test]
fn parse_rejects_invalid_calendar_fields() {
    assert_eq!(parse_timestamp(b"2024-00-01T09:05:30"), None);
    assert_eq!(parse_timestamp(b"2024-13-01T09:05:30"), None);
    assert_eq!(parse_timestamp(b"2024-03-00T09:05:30"), None);
    assert_eq!(parse_timestamp(b"2024-03-32T09:05:30"), None);
    assert_eq!(parse_timestamp(b"2024-04-31T09:05:30"), None);
    assert_eq!(parse_timestamp(b"2024-03-01T24:05:30"), None);
    assert_eq!(parse_timestamp(b"2024-03-01T09:60:30"), None);
    assert_eq!(parse_timestamp(b"2024-03-01T09:05:60"), None);
}

#[test]
fn leap_years_decide_february() {
    assert_eq!(parse_timestamp(b"2024-02-29T00:00:00"), Some(ts(2024, 2, 29, 0, 0, 0)));
    assert_eq!(parse_timestamp(b"2023-02-29T00:00:00"), None);
    assert_eq!(parse_timestamp(b"1900-02-29T00:00:00"), None);
    assert_eq!(parse_timestamp(b"2000-02-29T00:00:00"), Some(ts(2000, 2, 29, 0, 0, 0)));
}

#[test]
fn month_lengths() {
    assert_eq!(days_in_month_of(2023, 1), 31);
    assert_eq!(days_in_month_of(2023, 2), 28);
    assert_eq!(days_in_month_of(2024, 2), 29);
    assert_eq!(days_in_month_of(2024, 4), 30);
    assert_eq!(days_in_month_of(2024, 12), 31);
}

#[test]
fn state_labels_match_the_storage_layout() {
    assert_eq!(state_label(&BatteryState::Charging), b"Charging".to_vec());
    assert_eq!(state_label(&BatteryState::Discharging), b"Discharging".to_vec());
    assert_eq!(state_label(&BatteryState::Empty), b"Empty".to_vec());
    assert_eq!(state_label(&BatteryState::Full), b"Full".to_vec());
    assert_eq!(state_label(&BatteryState::Unknown), b"Unknown".to_vec());
    assert_eq!(state_label(&BatteryState::Other), b"Other".to_vec());
}

#[test]
fn state_labels_round_trip() {
    let states = [
        BatteryState::Charging,
        BatteryState::Discharging,
        BatteryState::Empty,
        BatteryState::Full,
        BatteryState::Unknown,
        BatteryState::Other,
    ];
    for st in states {
        let label = state_label(&st);
        assert_eq!(parse_state(&label), Some(st));
    }
}

#[test]
fn unknown_labels_are_rejected() {
    assert_eq!(parse_state(b""), None);
    assert_eq!(parse_state(b"charging"), None);
    assert_eq!(parse_state(b"Chargin"), None);
    assert_eq!(parse_state(b"Dischargingg"), None);
}

#[test]
fn status_round_trips_through_a_row() {
    let status = BatteryStatus {
        timestamp: ts(2024, 2, 29, 23, 59, 59),
        percentage: 87,
        state: BatteryState::Discharging,
        time_to_empty: Some(123),
        time_to_full: None,
    };
    let row = encode_status(&status);
    assert_eq!(row.timestamp, b"2024-02-29T23:59:59".to_vec());
    assert_eq!(row.percentage, 87);
    assert_eq!(row.state, b"Discharging".to_vec());
    assert_eq!(row.time_to_empty, Some(123));
    assert_eq!(row.time_to_full, None);
    assert_eq!(decode_status(&row), Some(status));
}

#[test]
fn status_round_trips_with_both_estimates() {
    let status = BatteryStatus {
        timestamp: ts(1999, 12, 31, 0, 0, 1),
        percentage: 0,
        state: BatteryState::Charging,
        time_to_empty: None,
        time_to_full: Some(45),
    };
    assert_eq!(decode_status(&encode_status(&status)), Some(status));
}

#[test]
fn decode_rejects_bad_columns() {
    let good = encode_status(&BatteryStatus {
        timestamp: ts(2024, 3, 1, 9, 5, 30),
        percentage: 50,
        state: BatteryState::Full,
        time_to_empty: None,
        time_to_full: None,
    });
    let bad_timestamp = HistoryRow {
        timestamp: b"not-a-timestamp-at-".to_vec(),
        percentage: good.percentage,
        state: good.state.clone(),
        time_to_empty: None,
        time_to_full: None,
    };
    assert_eq!(decode_status(&bad_timestamp), None);
    let bad_state = HistoryRow {
        timestamp: good.timestamp.clone(),
        percentage: good.percentage,
        state: b"Resting".to_vec(),
        time_to_empty: None,
        time_to_full: None,
    };
    assert_eq!(decode_status(&bad_state), None);
    let bad_percentage = HistoryRow {
        timestamp: good.timestamp.clone(),
        percentage: 101,
        state: good.state.clone(),
        time_to_empty: None,
        time_to_full: None,
    };
    assert_eq!(decode_status(&bad_percentage), None);
}
