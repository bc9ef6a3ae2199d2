use rune_editor::file_watcher::{
    change_type_for, debounce_for_path, path_matches_watch, should_process, watch_statistics,
    ChangeType, CustomMarkdownFilter, Debouncer, EventKind, FileWatcherEventHandler, LoopInput,
    LoopStep, RecoveryCause, WatchLoop, WatchRegistry, WatchedPath, DEFAULT_DEBOUNCE_MS,
    MAX_CONSECUTIVE_ERRORS, record_change, recursive_mode_for,
};

fn watch(path: &str, recursive: bool, debounce_ms: u64) -> WatchedPath {
    WatchedPath { path: path.to_string(), recursive, debounce_ms }
}

#[test]
fn recursive_watch_takes_everything_below() {
    let w = watch("/docs", true, 200);
    assert!(path_matches_watch("/docs/a/b/c.md", &w));
    assert!(path_matches_watch("/docs", &w));
    assert!(!path_matches_watch("/documents/x.md", &w));
}

#[test]
fn flat_watch_takes_the_directory_and_its_files() {
    let w = watch("/docs", false, 200);
    assert!(path_matches_watch("/docs/readme.md", &w));
    assert!(path_matches_watch("/docs", &w));
    assert!(!path_matches_watch("/docs/sub/readme.md", &w));
    assert!(!path_matches_watch("/other/readme.md", &w));
}

#[test]
fn debounce_comes_from_the_first_matching_watch() {
    let ws = vec![watch("/a", false, 50), watch("/a", true, 300), watch("/b", true, 700)];
    assert_eq!(debounce_for_path("/a/x.md", &ws), 50);
    assert_eq!(debounce_for_path("/a/sub/x.md", &ws), 300);
    assert_eq!(debounce_for_path("/b/x.md", &ws), 700);
    assert_eq!(debounce_for_path("/c/x.md", &ws), DEFAULT_DEBOUNCE_MS);
    assert_eq!(DEFAULT_DEBOUNCE_MS, 100);
}

#[test]
fn an_event_is_processed_when_a_matching_filter_accepts_it() {
    let ws = vec![watch("/a", false, 50), watch("/b", true, 300)];
    assert!(should_process("/b/x/y.md", &ws, &[false, true]));
    assert!(!should_process("/b/x/y.md", &ws, &[true, false]));
    assert!(!should_process("/c/y.md", &ws, &[true, true]));
}

#[test]
fn event_kinds_map_to_changes() {
    assert_eq!(change_type_for(EventKind::Create), ChangeType::Created);
    assert_eq!(change_type_for(EventKind::Modify), ChangeType::Modified);
    assert_eq!(change_type_for(EventKind::Remove), ChangeType::Deleted);
    assert_eq!(change_type_for(EventKind::Other), ChangeType::Modified);
}

#[test]
fn debouncer_keeps_one_change_per_path() {
    let mut d = Debouncer::new();
    d.record("/a/x.md".to_string(), ChangeType::Created, 1000);
    d.record("/a/y.md".to_string(), ChangeType::Modified, 1010);
    d.record("/a/x.md".to_string(), ChangeType::Modified, 1050);
    assert_eq!(d.len(), 2);

    let ws = vec![watch("/a", false, 100)];
    // At 1120 only y.md (seen at 1010) has waited 100 ms.
    let due = d.take_due(&ws, 1120);
    assert_eq!(due.len(), 1);
    assert_eq!(due[0].path, "/a/y.md");
    assert_eq!(due[0].change_type, ChangeType::Modified);
    assert_eq!(d.len(), 1);

    // x.md was seen last at 1050, so it is due at 1150 with its latest change.
    assert!(d.take_due(&ws, 1149).is_empty());
    let due = d.take_due(&ws, 1150);
    assert_eq!(due.len(), 1);
    assert_eq!(due[0].path, "/a/x.md");
    assert_eq!(due[0].change_type, ChangeType::Modified);
    assert_eq!(due[0].last_seen_ms, 1050);
    assert_eq!(d.len(), 0);
}

#[test]
fn debouncer_clock_going_back_waits() {
    let mut d = Debouncer::new();
    d.record("/z.md".to_string(), ChangeType::Deleted, 5000);
    assert!(d.take_due(&[], 4000).is_empty());
    d.clear();
    assert_eq!(d.len(), 0);
}

#[test]
fn statistics_count_watches_and_pending() {
    let mut d = Debouncer::new();
    d.record("/a".to_string(), ChangeType::Created, 1);
    let st = watch_statistics(&[watch("/a", true, 1), watch("/b", true, 1)], &d);
    assert_eq!(st.watched_path_count, 2);
    assert_eq!(st.pending_events_count, 1);
    assert_eq!(st.total_events_processed, 0);
}

#[test]
fn loop_recovers_after_ten_watcher_errors() {
    let mut l = WatchLoop::new();
    assert_eq!(MAX_CONSECUTIVE_ERRORS, 10);
    for _ in 0..9 {
        assert_eq!(l.step(LoopInput::WatcherError), LoopStep::Continue { pause: true });
    }
    assert_eq!(l.step(LoopInput::WatcherError), LoopStep::Recover(RecoveryCause::Errors));
    assert_eq!(l.error_count, 10);
    assert_eq!(
        l.step(LoopInput::Recovered { cause: RecoveryCause::Errors, ok: true }),
        LoopStep::Continue { pause: false }
    );
    assert_eq!(l.error_count, 0);
}

#[test]
fn loop_event_outcomes() {
    let mut l = WatchLoop::new();
    assert_eq!(l.step(LoopInput::Tick { processed: false }), LoopStep::Continue { pause: true });
    assert_eq!(l.step(LoopInput::Tick { processed: false }), LoopStep::Continue { pause: true });
    assert_eq!(l.error_count, 2);
    assert_eq!(l.step(LoopInput::Event { handled: false }), LoopStep::Continue { pause: true });
    assert_eq!(l.error_count, 1);
    assert_eq!(l.step(LoopInput::Event { handled: true }), LoopStep::Continue { pause: false });
    assert_eq!(l.error_count, 0);
    l.step(LoopInput::Tick { processed: false });
    assert_eq!(l.step(LoopInput::ResetInterval), LoopStep::Continue { pause: false });
    assert_eq!(l.error_count, 0);
}

#[test]
fn closed_channel_stops_when_recovery_fails() {
    let mut l = WatchLoop::new();
    assert_eq!(l.step(LoopInput::ChannelClosed), LoopStep::Recover(RecoveryCause::ChannelClosed));
    assert_eq!(
        l.step(LoopInput::Recovered { cause: RecoveryCause::ChannelClosed, ok: true }),
        LoopStep::Continue { pause: false }
    );
    assert_eq!(l.step(LoopInput::ChannelClosed), LoopStep::Recover(RecoveryCause::ChannelClosed));
    assert_eq!(
        l.step(LoopInput::Recovered { cause: RecoveryCause::ChannelClosed, ok: false }),
        LoopStep::Stop
    );
}

#[test]
fn markdown_filter_takes_markdown_only() {
    let f = CustomMarkdownFilter::new(250);
    assert!(f.should_watch("/docs/readme.md"));
    assert!(f.should_watch("notes.markdown"));
    assert!(!f.should_watch("notes.txt"));
    assert!(!f.should_watch("README"));
    assert!(!f.should_watch("shout.MD"));
    assert_eq!(f.debounce_duration_ms(), 250);
    assert_eq!(f.filter_name(), "CustomMarkdownFilter");
}

#[test]
fn event_handler_is_named_after_its_plugin() {
    let h = FileWatcherEventHandler::new("file-watcher".to_string());
    assert_eq!(h.handler_name(), "file-watcher");
}

#[test]
fn registry_adds_replaces_and_removes_watches() {
    let mut r = WatchRegistry::new();
    r.watch(1, "/docs".to_string(), 200);
    r.watch(2, "/notes".to_string(), 50);
    assert_eq!(r.len(), 2);
    assert!(r.watches()[0].recursive);
    assert!(r.is_watching("/docs"));
    assert!(r.is_watching("/docs/"));
    assert!(!r.is_watching("/docs/a.md"));
    r.watch(1, "/other".to_string(), 10);
    assert_eq!(r.len(), 2);
    assert_eq!(r.get_watched_paths(), vec![(1, "/other".to_string()), (2, "/notes".to_string())]);
    assert!(r.set_filter(2, 75));
    assert_eq!(r.watches()[1].debounce_ms, 75);
    assert!(!r.set_filter(9, 75));
    assert_eq!(r.unwatch(1), Some("/other".to_string()));
    assert_eq!(r.unwatch(1), None);
    assert_eq!(r.len(), 1);
}

#[test]
fn recursive_mode_follows_the_filter_name() {
    assert!(recursive_mode_for("recursive-markdown"));
    assert!(!recursive_mode_for("CustomMarkdownFilter"));
}

#[test]
fn changes_are_recorded_when_a_watch_takes_them() {
    let mut r = WatchRegistry::new();
    r.watch(1, "/docs".to_string(), 100);
    let mut d = Debouncer::new();
    assert!(record_change(&mut d, &r, "/docs/a.md".to_string(), EventKind::Create, &[true], 10));
    assert!(!record_change(&mut d, &r, "/docs/b.tmp".to_string(), EventKind::Modify, &[false], 11));
    assert!(!record_change(&mut d, &r, "/elsewhere/c.md".to_string(), EventKind::Modify, &[true], 12));
    assert_eq!(d.len(), 1);
    let due = d.take_due(r.watches(), 110);
    assert_eq!(due.len(), 1);
    assert_eq!(due[0].change_type, ChangeType::Created);
}
