use upnotif::config::from_env_values;
use upnotif::message::{changes_message, startup_message};
use upnotif::monitor::Monitor;
use upnotif::notify::{
    decimal_string, delivery_succeeded, plan_notification, webhook_failure_message,
    webhook_payload, NotifyAction,
};
use upnotif::verdict::Verdict;

fn monitor(urls: &str) -> Monitor {
    Monitor::new(
        from_env_values(Some(urls.to_string()), Some("test".to_string()), None)
            .ok()
            .unwrap(),
    )
}

#[test]
fn startup_report_lists_every_endpoint_once() {
    // a.test answers 200, b.test answers 503: one combined message with
    // one line per endpoint.
    let mut m = monitor("https://a.test, https://b.test");
    let verdicts = vec![
        upnotif::verdict::classify_response(Some(200)),
        upnotif::verdict::classify_response(Some(503)),
    ];
    let message = m.startup_report(&verdicts);
    assert_eq!(
        message,
        "🔍 *URL Monitor Started*\nInitial status check:\n✅ https://a.test is UP\n❌ https://b.test is DOWN"
    );
}

#[test]
fn startup_message_formats_entries_in_order() {
    let mut m = monitor("https://a.test");
    let entries = m.record_cycle(&vec![Verdict::Down]);
    let message = startup_message(&entries);
    assert_eq!(
        message,
        "🔍 *URL Monitor Started*\nInitial status check:\n❌ https://a.test is DOWN"
    );
}

#[test]
fn change_report_mentions_only_the_flipped_endpoint() {
    // On the second cycle a.test flips UP to DOWN while b.test stays
    // DOWN: the report mentions a.test's transition only.
    let mut m = Monitor::new(
        from_env_values(
            Some("https://a.test, https://b.test".to_string()),
            Some("test".to_string()),
            Some("5".to_string()),
        )
        .ok()
        .unwrap(),
    );
    m.record_cycle(&vec![Verdict::Up, Verdict::Down]);
    let report = m.cycle_report(&vec![Verdict::Down, Verdict::Down]);
    assert_eq!(
        report,
        Some("🔔 *URL Status Changes*\n❌ https://a.test is now DOWN".to_string())
    );
}

#[test]
fn steady_cycle_without_changes_reports_nothing() {
    let mut m = monitor("https://a.test, https://b.test");
    m.record_cycle(&vec![Verdict::Up, Verdict::Down]);
    let report = m.cycle_report(&vec![Verdict::Up, Verdict::Down]);
    assert_eq!(report, None);
}

#[test]
fn changes_message_keeps_configuration_order() {
    let mut m = monitor("https://a.test, https://b.test");
    m.record_cycle(&vec![Verdict::Down, Verdict::Down]);
    let entries = m.record_cycle(&vec![Verdict::Up, Verdict::Up]);
    let message = changes_message(&entries);
    assert_eq!(
        message,
        Some(
            "🔔 *URL Status Changes*\n✅ https://a.test is now UP\n✅ https://b.test is now UP"
                .to_string()
        )
    );
}

#[test]
fn webhook_payload_wraps_the_message_in_a_text_field() {
    assert_eq!(webhook_payload("hello"), "{\"text\":\"hello\"}");
}

#[test]
fn webhook_payload_escapes_the_message() {
    assert_eq!(
        webhook_payload("a \"quote\"\nand newline"),
        "{\"text\":\"a \\\"quote\\\"\\nand newline\"}"
    );
}

#[test]
fn test_mode_routes_to_the_console() {
    let c = from_env_values(
        Some("https://a.test".to_string()),
        Some("test".to_string()),
        None,
    )
    .ok()
    .unwrap();
    match plan_notification(&c, "hi there") {
        NotifyAction::Console(m) => assert_eq!(m, "hi there"),
        NotifyAction::Webhook { .. } => panic!("test mode must not reach the webhook"),
    }
}

#[test]
fn webhook_mode_posts_the_envelope_to_the_configured_url() {
    let c = from_env_values(
        Some("https://a.test".to_string()),
        Some("https://hooks.example.com/services/x".to_string()),
        None,
    )
    .ok()
    .unwrap();
    match plan_notification(&c, "status") {
        NotifyAction::Webhook { url, body } => {
            assert_eq!(url, "https://hooks.example.com/services/x");
            assert_eq!(body, "{\"text\":\"status\"}");
        }
        NotifyAction::Console(_) => panic!("webhook mode must not log to the console only"),
    }
}

#[test]
fn delivery_is_judged_by_the_success_class() {
    assert!(delivery_succeeded(Some(200)));
    assert!(delivery_succeeded(Some(204)));
    assert!(!delivery_succeeded(Some(302)));
    assert!(!delivery_succeeded(Some(500)));
    assert!(!delivery_succeeded(None));
}

#[test]
fn failure_detail_names_the_status_code() {
    assert_eq!(
        webhook_failure_message(503),
        "Slack webhook returned status: 503"
    );
    assert_eq!(decimal_string(0), "0");
    assert_eq!(decimal_string(10), "10");
    assert_eq!(decimal_string(65535), "65535");
}
