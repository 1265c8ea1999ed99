use port_discovery::notifier::{loopback_url_string, UiNotifier, DEFAULT_SETTLE_MILLIS};

#[test]
fn first_notify_carries_url_and_settle_delay() {
    let mut notifier = UiNotifier::new();
    let directive = notifier.notify(54231).expect("first notify must fire");
    assert_eq!(directive.url, "http://127.0.0.1:54231");
    assert_eq!(directive.settle_millis, DEFAULT_SETTLE_MILLIS);
    assert_eq!(DEFAULT_SETTLE_MILLIS, 300);
}

#[test]
fn notifier_fires_at_most_once() {
    let mut notifier = UiNotifier::new();
    assert!(notifier.notify(54231).is_some());
    assert!(notifier.notify(54231).is_none());
    assert!(notifier.notify(9999).is_none());
}

#[test]
fn settle_delay_is_configurable() {
    let mut notifier = UiNotifier::with_settle_millis(50);
    let directive = notifier.notify(80).expect("first notify must fire");
    assert_eq!(directive.settle_millis, 50);
    assert_eq!(directive.url, "http://127.0.0.1:80");
}

#[test]
fn url_spells_the_port_in_decimal() {
    assert_eq!(loopback_url_string(0), "http://127.0.0.1:0");
    assert_eq!(loopback_url_string(7), "http://127.0.0.1:7");
    assert_eq!(loopback_url_string(80), "http://127.0.0.1:80");
    assert_eq!(loopback_url_string(54231), "http://127.0.0.1:54231");
    assert_eq!(loopback_url_string(65535), "http://127.0.0.1:65535");
}
