use jumppad::disk::DiskStamp;
use jumppad::editor_state::{EditorEvent, EditorState, Handled};
use jumppad::find::FindMatch;
use jumppad::reload::{ConfigWatch, WatchedFile};
use jumppad::tab::Tab;
use jumppad::workspace::{
    Caret, CloseDecision, ConflictAction, ConflictDecision, CloseRequest, ModalAnswer, ModalKey, ModalKeyOutcome, ReadOutcome, ReloadApplied, SaveOutcome,
    SavedAction, Workspace,
};

const FILE: &str = "/tmp/notes.txt";

fn no_caret() -> Caret {
    Caret { cursor: (0, 0), selection: None }
}

fn stamp(mtime: i128, len: u64) -> DiskStamp {
    DiskStamp { mtime, len }
}

/// Two clean tabs on files, the first active, with find open on the first
/// searching for "two".
fn two_tabs_with_find() -> EditorState {
    let mut ws = Workspace::new();
    let mut first = Tab::from_file(0, FILE.to_string(), "one two");
    first.restamp(Some(stamp(1, 7)));
    let second = Tab::from_file(1, "/tmp/other.txt".to_string(), "two two");
    ws.tabs = vec![first, second];
    ws.next_id = 2;
    let mut state = EditorState::new(ws, ConfigWatch::seeded(None, None));
    let _ = state.palettes.open(0, "one two", (0, 0));
    let _ = state.palettes.query_changed(0, "two".to_string(), "one two", false);
    state
}

#[test]
fn a_reload_researches_the_reloaded_tabs_palette() {
    let mut state = two_tabs_with_find();
    assert_eq!(state.palettes.get(0).expect("palette").matches.len(), 1);
    let (applied, write) = state.document_reloaded(0, FILE, Some(stamp(2, 11)), ReadOutcome::Loaded("two two two".to_string()));
    assert_eq!(applied, ReloadApplied::Replaced(0));
    assert!(!write);
    let palette = state.palettes.get(0).expect("palette");
    assert_eq!(palette.matches.len(), 3);
    assert_eq!(palette.matches[2], FindMatch { line: 0, start: 8, end: 11 });
}

#[test]
fn a_vanished_file_asks_for_the_manifest_to_be_written() {
    let mut state = two_tabs_with_find();
    let (applied, write) = state.document_reloaded(0, FILE, None, ReadOutcome::NotFound);
    assert_eq!(applied, ReloadApplied::Vanished(0));
    assert!(write);
    assert!(state.workspace.tabs[0].dirty);
    assert_eq!(state.palettes.get(0).expect("palette").matches.len(), 1);
}

#[test]
fn saving_the_config_file_tells_the_config_watch() {
    let mut state = two_tabs_with_find();
    assert!(!state.config_watch.pending());
    let outcome = SaveOutcome::Saved { path: "/home/u/.config/jumppad/config.toml".to_string(), stamp: Some(stamp(5, 3)) };
    let (action, write) = state.file_saved(1, outcome, true, 1_000);
    assert_eq!(action, SavedAction::Nothing);
    assert!(write);
    assert!(state.config_watch.pending());
    assert_eq!(state.ticks_wanted().config_settle, true);
}

#[test]
fn saving_another_file_leaves_the_config_watch_alone() {
    let mut state = two_tabs_with_find();
    let outcome = SaveOutcome::Saved { path: "/tmp/elsewhere.txt".to_string(), stamp: None };
    let (_, write) = state.file_saved(1, outcome, false, 1_000);
    assert!(write);
    assert!(!state.config_watch.pending());
    let (_, write) = state.file_saved(1, SaveOutcome::Failed, false, 2_000);
    assert!(!write);
}

#[test]
fn closing_a_tab_drops_its_palette() {
    let mut state = two_tabs_with_find();
    let (closed, write) = state.close_tab(0);
    assert_eq!(closed, Some(0));
    assert!(write);
    assert!(state.palettes.get(0).is_none());
    assert_eq!(state.workspace.tabs.len(), 1);
}

#[test]
fn closing_the_only_clean_tab_through_an_event_leaves_a_fresh_one() {
    let mut state = EditorState::new(Workspace::new(), ConfigWatch::seeded(None, None));
    let (handled, write) = state.handle(EditorEvent::CloseTab { index: 0 });
    assert_eq!(handled, Handled::CloseRequested(CloseRequest::Closed(0)));
    assert!(write);
    assert_eq!(state.workspace.tabs.len(), 1);
    assert_eq!(state.workspace.tabs[0].id, 1);
    assert_eq!(state.workspace.active, 0);
}

#[test]
fn an_edit_researches_the_active_palette_and_marks_the_draft_stale() {
    let mut state = two_tabs_with_find();
    assert!(!state.ticks_wanted().autosave);
    let (handled, write) = state.handle(EditorEvent::Edited { index: 0, text: "two one two".to_string() });
    assert_eq!(handled, Handled::Edited(Some(true)));
    assert!(write);
    assert_eq!(state.palettes.get(0).expect("palette").matches.len(), 2);
    assert!(state.ticks_wanted().autosave);
    let (_, write) = state.handle(EditorEvent::Edited { index: 0, text: "two".to_string() });
    assert!(!write, "only the clean-to-dirty edit writes the manifest");
}

#[test]
fn switching_tabs_writes_the_manifest_only_when_the_tab_moved() {
    let mut state = two_tabs_with_find();
    assert_eq!(state.handle(EditorEvent::SelectTab { index: 1, caret: no_caret() }), (Handled::Switched(true), true));
    assert_eq!(state.handle(EditorEvent::SelectTab { index: 1, caret: no_caret() }), (Handled::Switched(false), false));
    assert_eq!(state.handle(EditorEvent::CycleTab { delta: 1, caret: no_caret() }), (Handled::Switched(true), true));
    assert_eq!(state.workspace.active, 0);
}

#[test]
fn file_events_arm_the_settle_ticks() {
    let mut state = two_tabs_with_find();
    let ticks = state.ticks_wanted();
    assert!(!ticks.config_settle && !ticks.document_settle);
    assert_eq!(state.handle(EditorEvent::DocumentFileEvent { now: 5 }), (Handled::Noted, false));
    assert!(state.ticks_wanted().document_settle);
    assert!(!state.ticks_wanted().config_settle);
    assert_eq!(state.handle(EditorEvent::ConfigFileEvent { file: WatchedFile::Keybinds, now: 6 }), (Handled::Noted, false));
    assert!(state.ticks_wanted().config_settle);
}

#[test]
fn a_new_tab_through_an_event_becomes_active() {
    let mut state = two_tabs_with_find();
    assert_eq!(state.handle(EditorEvent::NewTab { caret: no_caret() }), (Handled::Opened(2), true));
    assert_eq!(state.workspace.active, 2);
    assert_eq!(state.workspace.tabs.len(), 3);
}

#[test]
fn closing_a_dirty_tab_asks_and_keys_answer_the_dialog() {
    let mut state = two_tabs_with_find();
    let _ = state.handle(EditorEvent::Edited { index: 0, text: "changed".to_string() });
    assert_eq!(state.handle(EditorEvent::CloseTab { index: 0 }), (Handled::CloseRequested(CloseRequest::Prompted), false));
    assert_eq!(state.workspace.tabs.len(), 2, "a dirty tab is not closed outright");
    assert_eq!(state.handle(EditorEvent::ModalKey { key: ModalKey::Right }), (Handled::Key(ModalKeyOutcome::Handled), false));
    assert_eq!(
        state.handle(EditorEvent::ModalKey { key: ModalKey::Confirm }),
        (Handled::Key(ModalKeyOutcome::Answered(ModalAnswer::Close(0, CloseDecision::DontSave))), false)
    );
    assert!(state.palettes.get(0).is_some(), "answering the dialog is the caller's next step");
}

#[test]
fn tabs_a_dialog_closed_lose_their_palettes() {
    let mut state = two_tabs_with_find();
    state.workspace.tabs[0].dirty = true;
    let _ = state.handle(EditorEvent::CloseTab { index: 0 });
    let (plan, closed, write) = state.close_confirmed(0, CloseDecision::DontSave, false);
    assert!(plan.is_none());
    assert_eq!(closed, vec![0]);
    assert!(write);
    assert!(state.palettes.get(0).is_none());
}

#[test]
fn a_dialog_close_of_the_last_active_tab_researches_the_one_left_active() {
    let mut state = two_tabs_with_find();
    state.workspace.tabs[0].text = "two two two".to_string();
    state.workspace.tabs[1].dirty = true;
    state.workspace.active = 1;
    let _ = state.handle(EditorEvent::CloseTab { index: 1 });
    let (_, closed, _) = state.close_confirmed(1, CloseDecision::DontSave, false);
    assert_eq!(closed, vec![1]);
    assert_eq!(state.workspace.active, 0);
    assert_eq!(state.palettes.get(0).expect("palette").matches.len(), 3);
}

#[test]
fn cancelling_a_conflict_closes_nothing_and_leaves_the_palettes() {
    let mut state = two_tabs_with_find();
    let _ = state.file_saved(0, SaveOutcome::Conflict, false, 0);
    let (action, closed, write) = state.conflict_resolved(0, ConflictDecision::Cancel);
    assert!(matches!(action, ConflictAction::Nothing));
    assert!(closed.is_empty());
    assert!(!write);
    assert_eq!(state.palettes.get(0).expect("palette").matches.len(), 1);
}

#[test]
fn a_save_that_closes_the_last_active_tab_researches_the_one_left_active() {
    let mut state = two_tabs_with_find();
    state.workspace.tabs[0].text = "two two two".to_string();
    state.workspace.active = 1;
    state.workspace.pending_close_after_save = vec![1];
    let outcome = SaveOutcome::Saved { path: "/tmp/other.txt".to_string(), stamp: None };
    let (action, _) = state.file_saved(1, outcome, false, 0);
    assert_eq!(action, SavedAction::Closed(1));
    assert_eq!(state.workspace.active, 0);
    assert_eq!(state.palettes.get(0).expect("palette").matches.len(), 3, "searched the text it now shows");
}
