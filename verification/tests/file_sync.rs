use rune_editor::file_sync::{resolve_conflict, simple_merge, ConflictResolutionStrategy};

#[test]
fn test_conflict_resolution_prefer_local() {
    let local = "Local content";
    let external = "External content";
    let resolution = resolve_conflict(local, external, ConflictResolutionStrategy::PreferLocal);
    assert_eq!(resolution.content, local);
    assert!(resolution.success);
    assert!(resolution.unresolved_conflicts.is_empty());
}

#[test]
fn test_conflict_resolution_prefer_external() {
    let local = "Local content";
    let external = "External content";
    let resolution = resolve_conflict(local, external, ConflictResolutionStrategy::PreferExternal);
    assert_eq!(resolution.content, external);
    assert!(resolution.success);
    assert!(resolution.unresolved_conflicts.is_empty());
    assert_eq!(resolution.strategy_used, ConflictResolutionStrategy::PreferExternal);
}

#[test]
fn auto_merge_prefers_local_and_reports_conflicts() {
    let resolution = simple_merge("a\nb\nc", "a\nx\nc\nd");
    assert_eq!(resolution.content, "a\nb\nc\nd");
    assert!(!resolution.success);
    assert_eq!(resolution.strategy_used, ConflictResolutionStrategy::AutoMerge);
    assert_eq!(resolution.unresolved_conflicts.len(), 1);
    let c = &resolution.unresolved_conflicts[0];
    assert_eq!((c.start_line, c.end_line), (1, 2));
    assert_eq!(c.local_version, "b");
    assert_eq!(c.external_version, "x");
}

#[test]
fn merging_identical_texts_succeeds() {
    let resolution = resolve_conflict("one\r\ntwo\n", "one\r\ntwo\n", ConflictResolutionStrategy::AutoMerge);
    assert!(resolution.success);
    assert_eq!(resolution.content, "one\ntwo");
    assert!(resolution.unresolved_conflicts.is_empty());
}

#[test]
fn manual_resolution_shows_both_versions() {
    let resolution = resolve_conflict("l1\nl2", "e", ConflictResolutionStrategy::Manual);
    assert_eq!(resolution.content, "<<<<<<< LOCAL\nl1\nl2\n=======\ne\n>>>>>>> EXTERNAL");
    assert!(!resolution.success);
    let c = &resolution.unresolved_conflicts[0];
    assert_eq!((c.start_line, c.end_line), (0, 2));
    assert_eq!(c.local_version, "l1\nl2");
    assert_eq!(c.external_version, "e");
}
