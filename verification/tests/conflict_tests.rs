use jumppad::disk::DiskStamp;
use jumppad::opening::{OpenError, PathRead, SaveError};
use jumppad::tab::Tab;
use jumppad::workspace::{
    conflicts, Caret, CloseDecision, ConflictAction, ConflictDecision, ModalKind, ReadOutcome,
    ReloadApplied, SaveExpectation, SaveOutcome, SavedAction, Workspace,
};

const FILE: &str = "/tmp/notes.txt";

fn stamp(mtime: i128, len: u64) -> DiskStamp {
    DiskStamp { mtime, len }
}

fn no_caret() -> Caret {
    Caret { cursor: (0, 0), selection: None }
}

/// One clean tab on `FILE`, stamped as `seen`.
fn ws_watching(contents: &str, seen: DiskStamp) -> Workspace {
    let mut ws = Workspace::new();
    let mut tab = Tab::from_file(0, FILE.to_string(), contents);
    tab.restamp(Some(seen));
    ws.tabs = vec![tab];
    ws.next_id = 1;
    ws
}

/// A tab with unsaved edits whose file then changed underneath it.
fn ws_in_conflict() -> Workspace {
    let mut ws = ws_watching("as opened", stamp(1, 9));
    ws.tabs[0].dirty = true;
    ws.tabs[0].text = "my unsaved edits".to_string();
    let (reads, _) = ws.resolve_disk_changes(&[Some(stamp(2, 26))]);
    assert!(reads.is_empty());
    assert!(ws.tabs[0].externally_changed);
    ws
}

fn prompt_kind(ws: &Workspace) -> Option<(ModalKind, u64)> {
    ws.modal.as_ref().map(|m| (m.kind, m.tab_id))
}

#[test]
fn a_clean_tab_reloads_silently_when_its_file_changes() {
    let mut ws = ws_watching("before", stamp(1, 6));
    let stamped_at_open = ws.tabs[0].disk;
    let changed = stamp(2, 16);

    let (reads, deleted) = ws.resolve_disk_changes(&[Some(changed)]);
    assert_eq!(reads, vec![(0, FILE.to_string(), changed)], "the clean tab is queued for a re-read");
    assert!(!deleted);
    assert!(!ws.tabs[0].dirty, "a reload is not an edit");
    assert!(!ws.tabs[0].externally_changed, "nothing to warn about");
    assert_eq!(ws.tabs[0].disk, stamped_at_open, "stamped when the read lands, not when it's queued");

    let applied = ws.document_reloaded(0, FILE, Some(changed), ReadOutcome::Loaded("after the change".to_string()));
    assert_eq!(applied, ReloadApplied::Replaced(0));
    assert_eq!(ws.tabs[0].text, "after the change");
    assert!(!ws.tabs[0].dirty);
    assert_eq!(ws.tabs[0].disk, Some(changed));
}

#[test]
fn a_dirty_tab_keeps_its_buffer_and_is_flagged_instead() {
    let mut ws = ws_watching("before", stamp(1, 6));
    ws.tabs[0].dirty = true;
    ws.tabs[0].text = "my unsaved edits".to_string();
    let stamp_before = ws.tabs[0].disk;

    let (reads, _) = ws.resolve_disk_changes(&[Some(stamp(2, 22))]);
    assert!(reads.is_empty(), "unsaved edits are never overwritten");
    assert_eq!(ws.tabs[0].text, "my unsaved edits");
    assert!(ws.tabs[0].externally_changed);
    assert_eq!(ws.tabs[0].disk, stamp_before);
}

#[test]
fn a_deleted_file_leaves_the_tab_open_and_dirty() {
    let mut ws = ws_watching("still wanted", stamp(1, 12));
    let (reads, deleted) = ws.resolve_disk_changes(&[None]);
    assert!(reads.is_empty(), "there's nothing to read");
    assert!(deleted);
    assert_eq!(ws.tabs.len(), 1, "the tab stays open");
    assert_eq!(ws.tabs[0].text, "still wanted", "content preserved");
    assert!(ws.tabs[0].dirty, "so the next save recreates the file");
    assert_eq!(ws.tabs[0].disk, None);
    assert_eq!(ws.tabs[0].document.path.as_deref(), Some(FILE));
}

#[test]
fn a_conflicted_save_prompts_instead_of_writing() {
    let mut ws = ws_in_conflict();
    ws.tabs[0].externally_changed = false;
    let action = ws.file_saved(0, SaveOutcome::Conflict);
    assert!(matches!(action, SavedAction::Prompt(_)));
    assert_eq!(prompt_kind(&ws), Some((ModalKind::SaveConflict, 0)));
    assert!(ws.tabs[0].externally_changed, "the save is how it found out");
    assert!(!ws.file_dialog_active);
}

#[test]
fn cancelling_a_conflict_changes_nothing() {
    let mut ws = ws_in_conflict();
    let _ = ws.file_saved(0, SaveOutcome::Conflict);
    let (action, closed) = ws.conflict_resolved(0, ConflictDecision::Cancel);
    assert!(matches!(action, ConflictAction::Nothing));
    assert!(closed.is_empty());
    assert!(ws.modal.is_none());
    assert!(ws.tabs[0].dirty, "still unsaved");
    assert!(ws.tabs[0].externally_changed, "still flagged");
    assert_eq!(ws.tabs[0].text, "my unsaved edits");
}

#[test]
fn discard_and_reload_replaces_the_buffer_and_goes_clean() {
    let mut ws = ws_in_conflict();
    let _ = ws.file_saved(0, SaveOutcome::Conflict);
    let (action, _) = ws.conflict_resolved(0, ConflictDecision::DiscardAndReload);
    match action {
        ConflictAction::Reload { id, path } => {
            assert_eq!(id, 0);
            assert_eq!(path, FILE);
        },
        other => panic!("expected a reload, got {other:?}"),
    }
    let now = stamp(2, 26);
    let index = ws.conflict_reloaded(0, FILE, Some(now), "changed by another program".to_string());
    assert_eq!(index, Some(0));
    assert_eq!(ws.tabs[0].text, "changed by another program");
    assert!(!ws.tabs[0].dirty, "the buffer matches disk again");
    assert!(!ws.tabs[0].externally_changed);
    assert_eq!(ws.tabs[0].disk, Some(now));
}

#[test]
fn overwrite_writes_and_clears_the_flag() {
    let mut ws = ws_in_conflict();
    let _ = ws.file_saved(0, SaveOutcome::Conflict);
    let (action, _) = ws.conflict_resolved(0, ConflictDecision::Overwrite);
    match action {
        ConflictAction::Overwrite { id, path } => {
            assert_eq!(id, 0);
            assert_eq!(path, FILE);
        },
        other => panic!("expected an overwrite, got {other:?}"),
    }
    let written = stamp(3, 16);
    let _ = ws.file_saved(0, SaveOutcome::Saved { path: FILE.to_string(), stamp: Some(written) });
    assert!(!ws.tabs[0].dirty);
    assert!(!ws.tabs[0].externally_changed);
    assert_eq!(ws.tabs[0].disk, Some(written));
}

#[test]
fn keep_mine_restamps_so_the_next_save_does_not_prompt() {
    let mut ws = ws_in_conflict();
    let now = stamp(2, 26);
    assert!(ws.acknowledge_external_change(0, Some(now)));
    assert!(!ws.tabs[0].externally_changed);
    assert!(ws.tabs[0].dirty, "the edits are still unsaved");
    assert_eq!(ws.tabs[0].text, "my unsaved edits");
    assert!(!conflicts(Some(now), SaveExpectation::Seen(ws.tabs[0].disk)));
}

#[test]
fn a_conflict_waits_behind_the_close_prompt() {
    let mut ws = ws_in_conflict();
    let mut other = Tab::untitled(1);
    other.dirty = true;
    ws.tabs.push(other);
    ws.next_id = 2;

    let _ = ws.request_close(1);
    assert_eq!(prompt_kind(&ws), Some((ModalKind::Close, 1)));

    let _ = ws.file_saved(0, SaveOutcome::Conflict);
    assert_eq!(prompt_kind(&ws), Some((ModalKind::Close, 1)), "the close prompt keeps the screen");
    assert_eq!(ws.conflict_queue, vec![0]);

    let _ = ws.close_confirmed(1, CloseDecision::Cancel, false);
    assert_eq!(prompt_kind(&ws), Some((ModalKind::SaveConflict, 0)));
    assert!(ws.conflict_queue.is_empty());
}

#[test]
fn a_conflict_during_a_close_prompt_save_aborts_the_close() {
    let mut ws = ws_in_conflict();
    let _ = ws.request_close(0);
    let (plan, _) = ws.close_confirmed(0, CloseDecision::Save, false);
    assert!(plan.is_some(), "a save is started");
    assert_eq!(ws.pending_close_after_save, vec![0]);

    let _ = ws.file_saved(0, SaveOutcome::Conflict);
    assert_eq!(ws.tabs.len(), 1, "the tab stays open");
    assert!(ws.pending_close_after_save.is_empty(), "a failed save cancels the close it was for");
    assert_eq!(prompt_kind(&ws), Some((ModalKind::SaveConflict, 0)));
}

#[test]
fn a_queued_prompt_that_went_clean_does_not_strand_the_rest() {
    let mut ws = ws_in_conflict();
    let mut queued = Tab::untitled(1);
    queued.dirty = true;
    let mut showing = Tab::untitled(2);
    showing.dirty = true;
    ws.tabs.push(queued);
    ws.tabs.push(showing);
    ws.next_id = 3;

    let _ = ws.request_close(2);
    let _ = ws.request_close(1);
    let _ = ws.file_saved(0, SaveOutcome::Conflict);
    assert_eq!(ws.close_queue, vec![1]);
    assert_eq!(ws.conflict_queue, vec![0]);

    ws.tabs[1].dirty = false;
    let (_, closed) = ws.close_confirmed(2, CloseDecision::Cancel, false);
    assert_eq!(closed, vec![1]);
    assert!(ws.close_queue.is_empty());
    assert!(ws.conflict_queue.is_empty());
    assert!(!ws.tabs.iter().any(|tab| tab.id == 1), "the clean tab closed");
    assert_eq!(prompt_kind(&ws), Some((ModalKind::SaveConflict, 0)));
}

#[test]
fn a_reload_arriving_after_the_user_typed_is_dropped_and_flags_instead() {
    let mut ws = ws_watching("before", stamp(1, 6));
    let changed = stamp(2, 20);
    let (reads, _) = ws.resolve_disk_changes(&[Some(changed)]);
    assert_eq!(reads.len(), 1);

    let _ = ws.edited(0, "before!".to_string());
    assert!(ws.tabs[0].dirty);

    let applied = ws.document_reloaded(0, FILE, Some(changed), ReadOutcome::Loaded("from another program".to_string()));
    assert_eq!(applied, ReloadApplied::Flagged(0));
    assert_eq!(ws.tabs[0].text, "before!", "the in-flight reload must not clobber what was just typed");
    assert!(ws.tabs[0].externally_changed);
}

#[test]
fn a_reload_for_a_path_the_tab_no_longer_holds_is_dropped() {
    let mut ws = ws_watching("before", stamp(1, 6));
    ws.tabs[0].document.path = Some("/tmp/elsewhere.txt".to_string());
    let applied = ws.document_reloaded(0, FILE, Some(stamp(2, 5)), ReadOutcome::Loaded("stale".to_string()));
    assert_eq!(applied, ReloadApplied::Ignored);
    assert_eq!(ws.tabs[0].text, "before");
}

#[test]
fn an_unreadable_file_leaves_its_tab_alone() {
    let mut ws = ws_watching("before", stamp(1, 6));
    let applied = ws.document_reloaded(0, FILE, None, ReadOutcome::Failed);
    assert_eq!(applied, ReloadApplied::Ignored);
    assert_eq!(ws.tabs[0].text, "before");
    assert!(!ws.tabs[0].dirty);
}

#[test]
fn two_tabs_on_one_path_both_react() {
    let seen = stamp(1, 6);
    let mut ws = ws_watching("before", seen);
    let mut second = Tab::from_file(1, FILE.to_string(), "before");
    second.restamp(Some(seen));
    second.dirty = true;
    ws.tabs.push(second);
    ws.next_id = 2;

    let changed = stamp(2, 26);
    let (reads, _) = ws.resolve_disk_changes(&[Some(changed), Some(changed)]);
    assert_eq!(reads.len(), 1, "only the clean tab re-reads");
    assert_eq!(reads[0].0, 0);
    assert!(ws.tabs[1].externally_changed, "the dirty one is flagged");
}

#[test]
fn a_file_that_appeared_where_the_tab_saw_none_is_a_conflict() {
    assert!(conflicts(Some(stamp(1, 1)), SaveExpectation::Seen(None)));
}

#[test]
fn a_deleted_file_is_not_a_conflict_to_save_over() {
    assert!(!conflicts(None, SaveExpectation::Seen(Some(stamp(1, 1)))));
}

#[test]
fn the_overwrite_setting_skips_the_conflict_check() {
    assert!(!conflicts(Some(stamp(2, 2)), SaveExpectation::Unchecked));
    assert!(conflicts(Some(stamp(2, 2)), SaveExpectation::Seen(Some(stamp(1, 1)))));
    assert!(!conflicts(Some(stamp(1, 1)), SaveExpectation::Seen(Some(stamp(1, 1)))));
}

#[test]
fn named_files_open_in_order_with_the_last_active() {
    let mut ws = Workspace::new();
    for (path, text) in [("/tmp/a.txt", "a"), ("/tmp/b.txt", "b")] {
        if let Some(index) = ws.tab_index_for(path) {
            ws.switch_active(index, no_caret());
            continue;
        }
        let problem = ws.open_read_path(path.to_string(), PathRead::Loaded(text.to_string(), None), no_caret());
        assert!(problem.is_none());
    }
    assert_eq!(ws.tabs.len(), 2);
    assert_eq!(ws.tabs[0].document.path.as_deref(), Some("/tmp/a.txt"));
    assert_eq!(ws.tabs[1].document.path.as_deref(), Some("/tmp/b.txt"));
    assert_eq!(ws.active, 1, "the last one named is the one you land on");
}

#[test]
fn naming_an_already_open_file_focuses_its_tab() {
    let mut ws = Workspace::new();
    let _ = ws.open_read_path("/tmp/a.txt".to_string(), PathRead::Loaded("a".to_string(), None), no_caret());
    let _ = ws.new_tab(no_caret());
    assert_eq!(ws.active, 1);
    let index = ws.tab_index_for("/tmp/a.txt").expect("already open");
    ws.switch_active(index, no_caret());
    assert_eq!(ws.tabs.len(), 2);
    assert_eq!(ws.active, 0);
}

#[test]
fn a_named_file_loads_into_the_startup_scratch_tab() {
    let mut ws = Workspace::new();
    let problem = ws.open_read_path("/tmp/a.txt".to_string(), PathRead::Loaded("a".to_string(), None), no_caret());
    assert!(problem.is_none());
    assert_eq!(ws.tabs.len(), 1);
    assert_eq!(ws.tabs[0].id, 0);
    assert_eq!(ws.tabs[0].text, "a");
}

#[test]
fn naming_a_directory_surfaces_an_error_and_opens_nothing() {
    let mut ws = Workspace::new();
    let problem = ws.open_read_path("/tmp".to_string(), PathRead::Folder, no_caret());
    assert_eq!(problem.as_deref(), Some("/tmp: is a folder"));
    assert_eq!(ws.tabs.len(), 1);
    assert!(ws.tabs[0].document.path.is_none());
}

#[test]
fn naming_a_file_that_does_not_exist_opens_an_empty_buffer_for_it() {
    let mut ws = Workspace::new();
    let problem = ws.open_read_path("/tmp/new.txt".to_string(), PathRead::NotFound, no_caret());
    assert!(problem.is_none());
    assert_eq!(ws.tabs.len(), 1);
    assert_eq!(ws.tabs[0].document.path.as_deref(), Some("/tmp/new.txt"));
    assert_eq!(ws.tabs[0].text, "");
    assert!(!ws.tabs[0].dirty);
}

#[test]
fn naming_no_files_changes_nothing() {
    let problems: Vec<String> = Vec::new();
    assert_eq!(jumppad::opening::couldnt_open(&problems), None);
}

#[test]
fn opening_several_bad_paths_share_one_banner() {
    let problems = vec!["/a: is a folder".to_string(), "/b: permission denied".to_string()];
    assert_eq!(
        jumppad::opening::couldnt_open(&problems).as_deref(),
        Some("Couldn't open /a: is a folder; /b: permission denied")
    );
}

#[test]
fn opening_error_banners() {
    let open = OpenError::Io { path: "/tmp/x".to_string(), kind: "entity not found".to_string() };
    assert_eq!(open.message().as_deref(), Some("Couldn't open /tmp/x: entity not found"));
    assert_eq!(OpenError::DialogClosed.message(), None);
    let save = SaveError::Io { path: "/tmp/y".to_string(), kind: "permission denied".to_string() };
    assert_eq!(save.message().as_deref(), Some("Couldn't save /tmp/y: permission denied"));
    assert_eq!(SaveError::Conflict.message(), None);
    assert_eq!(SaveError::DialogClosed.message(), None);
}

#[test]
fn workspace_the_reload_bar_asks_for_the_tab_file() {
    let mut ws = ws_in_conflict();
    assert_eq!(ws.reload_requested(0).as_deref(), Some(FILE));
    assert_eq!(ws.reload_requested(7), None, "no such tab");
    let _ = ws.file_saved(0, SaveOutcome::Conflict);
    assert_eq!(ws.reload_requested(0), None, "the bar is inert under a dialog");
}

#[test]
fn workspace_a_restored_file_lands_in_its_tab_and_is_stamped() {
    let mut ws = ws_watching("", stamp(1, 0));
    let now = stamp(4, 7);
    assert!(ws.session_file_loaded(0, "on disk".to_string(), Some(now)));
    assert_eq!(ws.tabs[0].text, "on disk");
    assert_eq!(ws.tabs[0].disk, Some(now));
    assert!(!ws.session_file_loaded(9, "x".to_string(), None));
}

#[test]
fn workspace_acknowledging_on_an_untitled_tab_records_no_stamp() {
    let mut ws = Workspace::new();
    ws.tabs[0].externally_changed = true;
    assert!(ws.acknowledge_external_change(0, Some(stamp(1, 1))));
    assert_eq!(ws.tabs[0].disk, None);
    assert!(!ws.tabs[0].externally_changed);
}

#[test]
fn a_failed_read_still_flags_a_dirty_tab() {
    let mut ws = ws_watching("before", stamp(1, 6));
    let _ = ws.edited(0, "before!".to_string());
    let applied = ws.document_reloaded(0, FILE, None, ReadOutcome::Failed);
    assert_eq!(applied, ReloadApplied::Flagged(0));
    assert!(ws.tabs[0].externally_changed);
    assert_eq!(ws.tabs[0].text, "before!");
}

#[test]
fn a_save_the_tab_was_waiting_on_closes_it() {
    let mut ws = ws_watching("one", stamp(1, 3));
    ws.tabs.push(Tab::from_file(1, "/tmp/two.txt".to_string(), "two"));
    ws.next_id = 2;
    ws.pending_close_after_save = vec![7, 1, 1];
    let outcome = SaveOutcome::Saved { path: "/tmp/two.txt".to_string(), stamp: Some(stamp(4, 3)) };
    assert_eq!(ws.file_saved(1, outcome), SavedAction::Closed(1));
    assert_eq!(ws.tabs.len(), 1);
    assert_eq!(ws.tabs[0].id, 0);
    assert_eq!(ws.pending_close_after_save, vec![7, 1], "only the first wait for this tab is taken");
}
