use testwatch::controller::first_qualifying;
use testwatch::controller::has_source_suffix;
use testwatch::controller::qualifies;
use testwatch::controller::should_continue;
use testwatch::controller::should_rerun;
use testwatch::events::decode_event;
use testwatch::events::ChangeEvent;
use testwatch::events::EventKind;
use testwatch::events::WATCH_CREATE;
use testwatch::events::WATCH_DELETE;
use testwatch::events::WATCH_ISDIR;
use testwatch::events::WATCH_MODIFY;
use testwatch::file_watch::WatchError;

fn event(name: &str, is_dir: bool, kind: EventKind) -> ChangeEvent {
    ChangeEvent { name: name.to_string(), is_dir, kind }
}

#[test]
fn source_suffix_matches_only_rs_names() {
    assert!(has_source_suffix("lib.rs"));
    assert!(has_source_suffix("a.rs"));
    assert!(has_source_suffix(".rs"));
    assert!(!has_source_suffix("rs"));
    assert!(!has_source_suffix(""));
    assert!(!has_source_suffix("readme.md"));
    assert!(!has_source_suffix("lib.rs.bak"));
}

#[test]
fn directory_events_never_qualify() {
    let e = event("src.rs", true, EventKind::Created);
    assert!(!qualifies(&e));
    let f = event("src.rs", false, EventKind::Created);
    assert!(qualifies(&f));
}

#[test]
fn decoding_reads_the_mask_bits() {
    let e = decode_event("lib.rs".to_string(), WATCH_CREATE);
    assert_eq!(e.name, "lib.rs");
    assert!(!e.is_dir);
    assert_eq!(e.kind, EventKind::Created);

    let d = decode_event("src".to_string(), WATCH_CREATE | WATCH_ISDIR);
    assert!(d.is_dir);
    assert_eq!(d.kind, EventKind::Created);

    let m = decode_event("lib.rs".to_string(), WATCH_MODIFY);
    assert_eq!(m.kind, EventKind::Modified);

    let g = decode_event("lib.rs".to_string(), WATCH_DELETE);
    assert_eq!(g.kind, EventKind::Deleted);

    let o = decode_event("".to_string(), 0x8000);
    assert_eq!(o.kind, EventKind::Other);
}

#[test]
fn first_qualifying_stops_at_the_first_match() {
    let batch = vec![
        event("readme.md", false, EventKind::Modified),
        event("lib.rs", false, EventKind::Modified),
        event("main.rs", false, EventKind::Modified),
    ];
    assert_eq!(first_qualifying(&batch), Some(1));
}

#[test]
fn a_batch_with_a_qualifying_event_triggers_exactly_one_rerun() {
    let batch = vec![
        event("lib.rs", false, EventKind::Created),
        event("main.rs", false, EventKind::Modified),
    ];
    assert!(should_rerun(&Ok(batch)));
}

#[test]
fn a_batch_without_qualifying_events_launches_nothing() {
    let batch = vec![
        event("readme.md", false, EventKind::Modified),
        event("src", true, EventKind::Created),
    ];
    assert!(!should_rerun(&Ok(batch)));
    let empty: Vec<ChangeEvent> = vec![];
    assert!(!should_rerun(&Ok(empty)));
}

#[test]
fn a_failed_wait_counts_as_no_events() {
    assert!(!should_rerun(&Err(WatchError::WaitFailed)));
}

#[test]
fn an_observed_shutdown_flag_stops_the_loop_before_the_next_wait() {
    assert!(!should_continue(true));
    assert!(should_continue(false));
}
