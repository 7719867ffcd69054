use upnotif::config::{from_env_values, Config};
use upnotif::monitor::Monitor;
use upnotif::verdict::{classify_response, Verdict};

fn two_endpoint_config() -> Config {
    from_env_values(
        Some("https://a.test, https://b.test".to_string()),
        Some("test".to_string()),
        None,
    )
    .ok()
    .unwrap()
}

#[test]
fn transport_failure_and_error_status_are_both_down() {
    assert_eq!(classify_response(None), Verdict::Down);
    assert_eq!(classify_response(Some(500)), Verdict::Down);
    assert_eq!(classify_response(Some(404)), Verdict::Down);
    assert_eq!(classify_response(Some(199)), Verdict::Down);
    assert_eq!(classify_response(Some(300)), Verdict::Down);
}

#[test]
fn success_class_is_up() {
    assert_eq!(classify_response(Some(200)), Verdict::Up);
    assert_eq!(classify_response(Some(204)), Verdict::Up);
    assert_eq!(classify_response(Some(299)), Verdict::Up);
}

#[test]
fn verdict_labels() {
    assert_eq!(Verdict::Up.label(), "UP");
    assert_eq!(Verdict::Down.label(), "DOWN");
}

#[test]
fn first_cycle_marks_every_endpoint_changed() {
    let mut m = Monitor::new(two_endpoint_config());
    let entries = m.record_cycle(&vec![Verdict::Up, Verdict::Down]);
    assert_eq!(entries.len(), 2);
    assert!(entries[0].changed);
    assert!(entries[1].changed);
    assert_eq!(entries[0].endpoint, "https://a.test");
    assert_eq!(entries[0].verdict, Verdict::Up);
    assert_eq!(entries[1].endpoint, "https://b.test");
    assert_eq!(entries[1].verdict, Verdict::Down);
}

#[test]
fn ledger_holds_latest_verdict_for_every_endpoint() {
    let mut m = Monitor::new(two_endpoint_config());
    m.record_cycle(&vec![Verdict::Up, Verdict::Down]);
    assert_eq!(m.ledger, vec![Some(Verdict::Up), Some(Verdict::Down)]);
    m.record_cycle(&vec![Verdict::Down, Verdict::Down]);
    assert_eq!(m.ledger, vec![Some(Verdict::Down), Some(Verdict::Down)]);
}

#[test]
fn repeated_verdict_is_not_a_change() {
    let mut m = Monitor::new(two_endpoint_config());
    m.record_cycle(&vec![Verdict::Up, Verdict::Down]);
    let entries = m.record_cycle(&vec![Verdict::Up, Verdict::Down]);
    assert!(!entries[0].changed);
    assert!(!entries[1].changed);
}

#[test]
fn only_the_flipped_endpoint_is_a_change() {
    let mut m = Monitor::new(two_endpoint_config());
    m.record_cycle(&vec![Verdict::Up, Verdict::Up]);
    let entries = m.record_cycle(&vec![Verdict::Down, Verdict::Up]);
    assert!(entries[0].changed);
    assert!(!entries[1].changed);
}

#[test]
fn evaluate_updates_one_slot_and_flags_first_observation() {
    let mut m = Monitor::new(two_endpoint_config());
    let changed = m.evaluate(1, Verdict::Down);
    assert!(changed);
    assert_eq!(m.ledger, vec![None, Some(Verdict::Down)]);
    let changed_again = m.evaluate(1, Verdict::Down);
    assert!(!changed_again);
}
