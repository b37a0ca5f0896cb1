use testwatch::events::decode_batch;
use testwatch::events::EventKind;
use testwatch::events::WATCH_CREATE;
use testwatch::events::WATCH_ISDIR;
use testwatch::events::WATCH_MODIFY;
use testwatch::file_watch::FileWatch;
use testwatch::file_watch::WatchError;

#[test]
fn a_new_watch_service_registers_directories() {
    let mut watch = FileWatch::new().unwrap();
    assert!(watch.add_watch("/tmp", WATCH_CREATE | WATCH_MODIFY).is_ok());
    assert!(watch.add_watch("/", WATCH_MODIFY).is_ok());
    watch.shutdown();
}

#[test]
fn registering_a_missing_directory_fails() {
    let mut watch = FileWatch::new().unwrap();
    let r = watch.add_watch("/no/such/directory/anywhere", WATCH_CREATE | WATCH_MODIFY);
    assert_eq!(r, Err(WatchError::RegisterFailed));
    watch.shutdown();
}

#[test]
fn shutdown_is_idempotent() {
    let mut watch = FileWatch::new().unwrap();
    assert!(watch.add_watch("/tmp", WATCH_CREATE | WATCH_MODIFY).is_ok());
    watch.shutdown();
    watch.shutdown();
}

#[test]
fn a_released_service_rejects_every_call() {
    let mut watch = FileWatch::new().unwrap();
    watch.shutdown();
    assert_eq!(
        watch.add_watch("/tmp", WATCH_CREATE | WATCH_MODIFY),
        Err(WatchError::RegisterFailed)
    );
    assert_eq!(watch.wait_for_events().unwrap_err(), WatchError::WaitFailed);
}

#[test]
fn decoding_a_batch_keeps_order_and_fields() {
    let raw = vec![
        ("readme.md".to_string(), WATCH_MODIFY),
        ("src".to_string(), WATCH_CREATE | WATCH_ISDIR),
        ("lib.rs".to_string(), WATCH_CREATE),
    ];
    let events = decode_batch(raw);
    assert_eq!(events.len(), 3);
    assert_eq!(events[0].name, "readme.md");
    assert_eq!(events[0].kind, EventKind::Modified);
    assert!(!events[0].is_dir);
    assert_eq!(events[1].name, "src");
    assert!(events[1].is_dir);
    assert_eq!(events[2].name, "lib.rs");
    assert_eq!(events[2].kind, EventKind::Created);
    assert!(!events[2].is_dir);
}
