use powerpulse::notifier::BatteryNotifier;

fn default_thresholds() -> Vec<u8> {
    vec![20, 15, 10, 5]
}

#[test]
fn first_reading_at_or_below_a_threshold_fires() {
    let mut n = BatteryNotifier::new(default_thresholds());
    let alert = n.check_and_notify(18, false);
    let alert = alert.expect("first reading below 20 must fire");
    assert_eq!(alert.percentage, 18);
}

#[test]
fn first_reading_at_threshold_boundary_fires() {
    let mut n = BatteryNotifier::new(default_thresholds());
    let alert = n.check_and_notify(20, false);
    assert!(alert.is_some());
}

#[test]
fn first_reading_above_all_thresholds_is_silent() {
    let mut n = BatteryNotifier::new(default_thresholds());
    assert!(n.check_and_notify(21, false).is_none());
    let mut n = BatteryNotifier::new(default_thresholds());
    assert!(n.check_and_notify(100, false).is_none());
}

#[test]
fn alert_reports_the_reading_not_the_threshold() {
    let mut n = BatteryNotifier::new(default_thresholds());
    let alert = n.check_and_notify(12, false).expect("12 is below 20");
    assert_eq!(alert.percentage, 12);
    assert_eq!(alert.message, "Battery level is at 12%");
}

#[test]
fn edge_trigger_sequence() {
    let mut n = BatteryNotifier::new(default_thresholds());
    assert!(n.check_and_notify(25, false).is_none());
    let second = n.check_and_notify(18, false);
    assert_eq!(second.expect("crossing 20").percentage, 18);
    assert!(n.check_and_notify(18, false).is_none());
    let fourth = n.check_and_notify(12, false);
    assert_eq!(fourth.expect("crossing 15").percentage, 12);
}

#[test]
fn charging_suppression_with_state_advance() {
    let mut n = BatteryNotifier::new(default_thresholds());
    assert!(n.check_and_notify(18, false).is_some());
    assert!(n.check_and_notify(12, true).is_none());
    assert!(n.check_and_notify(12, false).is_none());
}

#[test]
fn repeated_identical_readings_fire_once() {
    let mut n = BatteryNotifier::new(default_thresholds());
    assert!(n.check_and_notify(9, false).is_some());
    assert!(n.check_and_notify(9, false).is_none());
    assert!(n.check_and_notify(9, false).is_none());
}

#[test]
fn charging_back_up_never_alerts() {
    let mut n = BatteryNotifier::new(default_thresholds());
    assert!(n.check_and_notify(18, false).is_some());
    assert!(n.check_and_notify(60, true).is_none());
    assert!(n.check_and_notify(100, true).is_none());
    assert!(n.check_and_notify(97, false).is_none());
    let again = n.check_and_notify(15, false);
    assert_eq!(again.expect("re-armed after recovery").percentage, 15);
}

#[test]
fn charging_first_reading_is_suppressed() {
    let mut n = BatteryNotifier::new(default_thresholds());
    assert!(n.check_and_notify(3, true).is_none());
    assert!(n.check_and_notify(3, false).is_none());
}

#[test]
fn empty_threshold_set_never_fires() {
    let mut n = BatteryNotifier::new(Vec::new());
    assert!(n.check_and_notify(0, false).is_none());
    assert!(n.check_and_notify(0, false).is_none());
}

#[test]
fn zero_threshold_fires_at_zero() {
    let mut n = BatteryNotifier::new(vec![0]);
    let alert = n.check_and_notify(0, false).expect("0 is at threshold 0");
    assert_eq!(alert.message, "Battery level is at 0%");
}

#[test]
fn message_with_three_digits() {
    let mut n = BatteryNotifier::new(vec![100]);
    let alert = n.check_and_notify(100, false).expect("100 is at threshold 100");
    assert_eq!(alert.message, "Battery level is at 100%");
}

#[test]
fn unsorted_thresholds_behave_the_same() {
    let mut n = BatteryNotifier::new(vec![5, 20, 10, 15]);
    assert!(n.check_and_notify(25, false).is_none());
    assert!(n.check_and_notify(18, false).is_some());
    assert!(n.check_and_notify(18, false).is_none());
    assert!(n.check_and_notify(12, false).is_some());
}
