use upnotif::config::{from_env_values, ConfigError};

fn s(v: &str) -> Option<String> {
    Some(v.to_string())
}

#[test]
fn missing_urls_is_rejected() {
    let r = from_env_values(None, s("test"), None);
    let e = r.err().unwrap();
    assert!(matches!(e, ConfigError::MissingUrls));
    assert_eq!(e.message(), "UPNOTIF_URLS environment variable is required");
}

#[test]
fn missing_webhook_is_rejected() {
    let r = from_env_values(s("https://a.test"), None, None);
    let e = r.err().unwrap();
    assert!(matches!(e, ConfigError::MissingWebhook));
    assert_eq!(
        e.message(),
        "UPNOTIF_SLACK_WEBHOOK environment variable is required"
    );
}

#[test]
fn empty_url_list_fails_startup() {
    let r = from_env_values(s(""), s("test"), None);
    let e = r.err().unwrap();
    assert!(matches!(e, ConfigError::NoUrls));
    assert_eq!(
        e.message(),
        "At least one URL must be provided in UPNOTIF_URLS"
    );
}

#[test]
fn whitespace_url_list_fails_startup() {
    let r = from_env_values(s("   \t ,  ,   "), s("test"), None);
    assert!(matches!(r.err().unwrap(), ConfigError::NoUrls));
}

#[test]
fn urls_are_split_trimmed_and_cleaned() {
    let r = from_env_values(
        s(" https://a.test , https://b.test ,, "),
        s("test"),
        None,
    );
    let c = r.ok().unwrap();
    assert_eq!(c.urls, vec!["https://a.test", "https://b.test"]);
}

#[test]
fn invalid_url_is_named_in_the_error() {
    let r = from_env_values(s("https://a.test, not a url"), s("test"), None);
    let e = r.err().unwrap();
    match &e {
        ConfigError::InvalidUrl(u) => assert_eq!(u, "not a url"),
        _ => panic!("expected an invalid URL error"),
    }
    assert_eq!(e.message(), "Invalid URL: not a url");
}

#[test]
fn interval_defaults_to_sixty() {
    let c = from_env_values(s("https://a.test"), s("test"), None).ok().unwrap();
    assert_eq!(c.interval_seconds, 60);
}

#[test]
fn interval_is_parsed() {
    let c = from_env_values(s("https://a.test"), s("test"), Some("5".to_string()))
        .ok()
        .unwrap();
    assert_eq!(c.interval_seconds, 5);
}

#[test]
fn non_numeric_interval_is_rejected() {
    for bad in ["abc", "", "12x", "-3", "0", "99999999999999999999999"] {
        let r = from_env_values(s("https://a.test"), s("test"), Some(bad.to_string()));
        let e = r.err().unwrap();
        assert!(matches!(e, ConfigError::InvalidInterval));
        assert_eq!(e.message(), "UPNOTIF_INTERVAL_SECONDS must be a positive number");
    }
}

#[test]
fn sentinel_webhook_selects_test_mode() {
    let c = from_env_values(s("https://a.test"), s("test"), None).ok().unwrap();
    assert!(c.test_mode);
    assert_eq!(c.slack_webhook, "test");
}

#[test]
fn webhook_url_selects_webhook_mode() {
    let c = from_env_values(
        s("https://a.test"),
        s("https://hooks.example.com/services/x"),
        None,
    )
    .ok()
    .unwrap();
    assert!(!c.test_mode);
}

#[test]
fn invalid_webhook_is_rejected() {
    let r = from_env_values(s("https://a.test"), s("not a url"), None);
    let e = r.err().unwrap();
    assert!(matches!(e, ConfigError::InvalidWebhook));
    assert_eq!(e.message(), "Invalid Slack webhook URL");
}
