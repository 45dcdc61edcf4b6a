use fire_stream::config::{Config, Configurator, Watcher};
use std::time::Duration;

#[test]
fn read_returns_what_was_set() {
    let cfg = Configurator::new(7u32);
    assert_eq!(cfg.read(), 7);
    assert_eq!(cfg.version(), 0);
}

#[test]
fn update_overwrites() {
    let mut cfg = Configurator::new(String::from("a"));
    cfg.update(String::from("b"));
    cfg.update(String::from("c"));
    // the latest value, never a queued one
    assert_eq!(cfg.read(), "c");
    assert_eq!(cfg.read(), "c");
    assert_eq!(cfg.version(), 2);
}

#[test]
fn update_without_a_reader() {
    let mut cfg = Configurator::new(Config { timeout: Duration::from_secs(1), body_limit: 200 });
    cfg.update(Config { timeout: Duration::from_millis(20), body_limit: 100 });
    let now = cfg.read();
    assert_eq!(now.timeout, Duration::from_millis(20));
    assert_eq!(now.body_limit, 100);
}

#[test]
fn watcher_sees_a_change_once() {
    let mut cfg = Configurator::new(1u32);
    let mut first = Watcher::new(&cfg);
    let mut second = Watcher::new(&cfg);
    assert!(!first.has_changed(&cfg));
    assert_eq!(first.changed(&cfg), None);
    cfg.update(2);
    cfg.update(3);
    assert!(first.has_changed(&cfg));
    // the latest value, whatever was there in between
    assert_eq!(first.changed(&cfg), Some(3));
    assert!(!first.has_changed(&cfg));
    assert_eq!(first.changed(&cfg), None);
    // each reader sees it for itself
    assert_eq!(second.changed(&cfg), Some(3));
    assert_eq!(second.changed(&cfg), None);
    cfg.update(3);
    assert_eq!(first.changed(&cfg), Some(3));
}

#[test]
fn clone_of_a_configurator_keeps_the_value() {
    let mut cfg = Configurator::new(5u8);
    cfg.update(6);
    let copy = cfg.clone();
    assert_eq!(copy.read(), 6);
    assert_eq!(copy.version(), 1);
}
