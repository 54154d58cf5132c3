use jumppad::disk::DiskStamp;
use jumppad::restore::{restore_session, EntryOnDisk};
use jumppad::session::{build_manifest, SessionManifest, TabEntry};
use jumppad::tab::Tab;

fn entry(id: u64, path: Option<&str>, dirty: bool) -> TabEntry {
    TabEntry { id, path: path.map(str::to_string), dirty }
}

fn on_disk(draft: Option<&str>, file_exists: bool, stamp: Option<DiskStamp>) -> EntryOnDisk {
    EntryOnDisk { draft: draft.map(str::to_string), file_exists, stamp }
}

#[test]
fn a_restored_tab_is_stamped_before_its_re_read_is_queued() {
    let stamp = DiskStamp { mtime: 7, len: 7 };
    let manifest = SessionManifest { active: 0, tabs: vec![entry(0, Some("/tmp/restored.txt"), false)] };
    let restored = restore_session(&manifest, &vec![on_disk(None, true, Some(stamp))]);
    let mut ws = restored.workspace;
    assert_eq!(restored.reloads, vec![(0, "/tmp/restored.txt".to_string())]);
    assert_eq!(ws.tabs[0].disk, Some(stamp));
    let (reads, _) = ws.resolve_disk_changes(&[Some(stamp)]);
    assert!(reads.is_empty(), "a sweep before the re-read lands must find nothing to do");
    assert_eq!(ws.tabs[0].text, "", "the buffer is left for the re-read");
}

#[test]
fn restore_an_empty_manifest_starts_with_one_untitled_tab() {
    let manifest = SessionManifest::default();
    let restored = restore_session(&manifest, &Vec::new());
    assert!(restored.reloads.is_empty());
    assert_eq!(restored.workspace.tabs.len(), 1);
    assert_eq!(restored.workspace.tabs[0].id, 0);
    assert_eq!(restored.workspace.next_id, 1);
}

#[test]
fn restore_dirty_tabs_come_back_from_their_drafts() {
    let manifest = SessionManifest {
        active: 1,
        tabs: vec![entry(3, Some("/tmp/a.txt"), true), entry(8, None, true), entry(5, None, false)],
    };
    let disks = vec![
        on_disk(Some("draft a"), true, Some(DiskStamp { mtime: 1, len: 2 })),
        on_disk(Some("scratch"), false, None),
        on_disk(None, false, None),
    ];
    let restored = restore_session(&manifest, &disks);
    let ws = restored.workspace;
    assert!(restored.reloads.is_empty(), "drafts need no re-read");
    assert_eq!(ws.tabs.len(), 3);
    assert_eq!(ws.tabs[0].text, "draft a");
    assert!(ws.tabs[0].dirty);
    assert_eq!(ws.tabs[0].disk, Some(DiskStamp { mtime: 1, len: 2 }));
    assert_eq!(ws.tabs[1].text, "scratch");
    assert_eq!(ws.tabs[1].disk, None, "an untitled tab is never stamped");
    assert_eq!(ws.tabs[2].text, "");
    assert!(!ws.tabs[2].dirty);
    assert_eq!(ws.active, 1);
    assert_eq!(ws.previous_active_id, Some(3));
    assert_eq!(ws.next_id, 9, "new ids continue after the largest saved one");
}

#[test]
fn restore_a_lost_draft_falls_back_to_the_file_or_is_dropped() {
    let manifest = SessionManifest {
        active: 5,
        tabs: vec![entry(0, Some("/tmp/a.txt"), true), entry(1, None, true), entry(2, Some("/tmp/gone.txt"), false)],
    };
    let disks = vec![on_disk(None, true, None), on_disk(None, false, None), on_disk(None, false, None)];
    let restored = restore_session(&manifest, &disks);
    let ws = restored.workspace;
    assert_eq!(ws.tabs.len(), 2, "the untitled tab without a draft is dropped");
    assert_eq!(ws.tabs[0].id, 0);
    assert!(!ws.tabs[0].dirty);
    assert_eq!(ws.tabs[1].id, 2);
    assert_eq!(restored.reloads, vec![(0, "/tmp/a.txt".to_string())], "a missing file is not read");
    assert_eq!(ws.active, 1, "an out-of-range active falls back to the last tab");
    assert_eq!(ws.next_id, 3);
}

#[test]
fn restore_round_trips_a_saved_strip() {
    let mut tabs = vec![Tab::untitled(0), Tab::from_file(4, "/tmp/b.txt".to_string(), "b"), Tab::untitled(2)];
    tabs[0].dirty = true;
    tabs[0].text = "unsaved".to_string();
    let manifest = build_manifest(&tabs, 2);
    let disks = vec![on_disk(Some("unsaved"), false, None), on_disk(None, true, None), on_disk(None, false, None)];
    let ws = restore_session(&manifest, &disks).workspace;
    let ids: Vec<u64> = ws.tabs.iter().map(|t| t.id).collect();
    assert_eq!(ids, vec![0, 4, 2]);
    assert_eq!(ws.tabs[0].text, "unsaved");
    assert!(ws.tabs[0].dirty);
    assert_eq!(ws.tabs[1].document.path.as_deref(), Some("/tmp/b.txt"));
    assert_eq!(ws.active, 2);
}
