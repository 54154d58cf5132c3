use jumppad::session::{build_manifest, draft_path, is_orphaned_draft, manifest_path, parse_u64, stale_tabs, SessionManifest, TabEntry};
use jumppad::tab::Tab;

fn manifest(entries: &[(u64, bool)]) -> SessionManifest {
    SessionManifest {
        active: 0,
        tabs: entries.iter().map(|&(id, dirty)| TabEntry { id, path: None, dirty }).collect(),
    }
}

#[test]
fn draft_paths_are_named_by_tab_id() {
    assert_eq!(draft_path("/tmp/drafts", 42), "/tmp/drafts/42.draft");
    assert_eq!(draft_path("drafts", 0), "drafts/0.draft");
    assert_eq!(manifest_path("drafts"), "drafts/session.toml");
}

#[test]
fn build_manifest_records_every_tab_in_order() {
    let tabs = vec![
        Tab::restored(0, None, "hello", true),
        Tab::restored(1, Some("/tmp/file.txt".to_string()), "", false),
    ];
    let built = build_manifest(&tabs, 1);
    assert_eq!(built.active, 1);
    assert_eq!(built.tabs.len(), 2);
    assert_eq!(built.tabs[0].id, 0);
    assert!(built.tabs[0].dirty);
    assert_eq!(built.tabs[0].path, None);
    assert_eq!(built.tabs[1].path.as_deref(), Some("/tmp/file.txt"));
    assert!(!built.tabs[1].dirty);
}

#[test]
fn only_dirty_tabs_with_unflushed_edits_are_stale() {
    let mut fresh_dirty = Tab::restored(0, None, "a", true);
    fresh_dirty.draft_generation = 3;
    fresh_dirty.flushed_generation = 1;
    let mut flushed = Tab::restored(1, None, "b", true);
    flushed.draft_generation = 2;
    flushed.flushed_generation = 2;
    let mut clean = Tab::restored(2, None, "c", false);
    clean.draft_generation = 5;
    let stale = stale_tabs(&[fresh_dirty, flushed, clean]);
    assert_eq!(stale, vec![(0, 3, "a".to_string())]);
}

#[test]
fn drafts_of_dirty_tabs_survive_and_the_rest_are_orphans() {
    let m = manifest(&[(1, true), (2, false)]);
    assert!(!is_orphaned_draft("/d/1.draft", &m));
    assert!(is_orphaned_draft("/d/2.draft", &m), "a clean tab needs no draft");
    assert!(is_orphaned_draft("/d/7.draft", &m), "no such tab");
    assert!(is_orphaned_draft("/d/x.draft", &m), "not a tab id at all");
    assert!(!is_orphaned_draft("/d/session.toml", &m), "not a draft");
    assert!(!is_orphaned_draft("/d/.draft", &m), "a hidden file has no extension");
    assert!(!is_orphaned_draft("/d/1.draft.bak", &m));
    assert!(!is_orphaned_draft("/d/+1.draft", &m), "parse accepts a plus sign");
}

#[test]
fn parse_u64_follows_the_standard_parser() {
    assert_eq!(parse_u64("0"), Some(0));
    assert_eq!(parse_u64("+17"), Some(17));
    assert_eq!(parse_u64("007"), Some(7));
    assert_eq!(parse_u64("18446744073709551615"), Some(u64::MAX));
    assert_eq!(parse_u64("18446744073709551616"), None);
    assert_eq!(parse_u64(""), None);
    assert_eq!(parse_u64("+"), None);
    assert_eq!(parse_u64("-1"), None);
    assert_eq!(parse_u64("1 "), None);
    for text in ["0", "+3", "99", "12x", "", "+", "-0"] {
        assert_eq!(parse_u64(text), text.parse::<u64>().ok());
    }
}

#[test]
fn stale_tabs_only_reports_unflushed_dirty_content() {
    let clean = Tab::untitled(0);
    let mut dirty_unflushed = Tab::untitled(1);
    dirty_unflushed.dirty = true;
    dirty_unflushed.draft_generation = 2;
    dirty_unflushed.flushed_generation = 1;
    let mut dirty_flushed = Tab::untitled(2);
    dirty_flushed.dirty = true;
    dirty_flushed.draft_generation = 3;
    dirty_flushed.flushed_generation = 3;

    let tabs = vec![clean, dirty_unflushed, dirty_flushed];
    let stale = stale_tabs(&tabs);

    assert_eq!(stale.len(), 1);
    assert_eq!(stale[0].0, 1);
    assert_eq!(stale[0].1, 2);
}
