use jumppad::disk::DiskStamp;
use jumppad::opening::DropOutcome;
use jumppad::tab::{SavedSelection, SelectionKind, Tab};
use jumppad::workspace::{
    Caret, CloseDecision, CloseRequest, ModalAnswer, ModalKey, ModalKeyOutcome, ModalKind,
    SaveOutcome, SavedAction, Workspace,
};

/// A strip of `n` untitled tabs, ids 0 to n - 1, the first active.
fn test_ws(n: u64) -> Workspace {
    let mut ws = Workspace::new();
    ws.tabs = (0..n).map(Tab::untitled).collect();
    ws.next_id = n;
    ws
}

fn no_caret() -> Caret {
    Caret { cursor: (0, 0), selection: None }
}

fn focused(ws: &Workspace) -> usize {
    ws.modal.as_ref().expect("a dialog").focused
}

/// Answers the dialog the way the shell does: the key's answer goes to
/// `close_confirmed`.
fn press(ws: &mut Workspace, key: ModalKey) {
    if let ModalKeyOutcome::Answered(ModalAnswer::Close(id, decision)) = ws.modal_key(key) {
        let _ = ws.close_confirmed(id, decision, false);
    }
}

#[test]
fn close_confirmed_opens_the_next_queued_prompt() {
    let mut ws = test_ws(3);
    ws.tabs[0].dirty = true;
    ws.tabs[1].dirty = true;
    let tab1_id = ws.tabs[1].id;
    assert_eq!(ws.request_close(0), CloseRequest::Prompted);
    assert_eq!(ws.request_close(1), CloseRequest::Queued);

    let tab0_id = ws.tabs[0].id;
    let _ = ws.close_confirmed(tab0_id, CloseDecision::DontSave, false);

    assert!(ws.close_queue.is_empty());
    let modal = ws.modal.as_ref().expect("a close prompt");
    assert_eq!(modal.kind, ModalKind::Close);
    assert_eq!(modal.tab_id, tab1_id);
}

#[test]
fn closing_the_last_tab_replaces_it() {
    let mut ws = test_ws(1);
    assert_eq!(ws.close_tab(0), Some(0));
    assert_eq!(ws.tabs.len(), 1, "replaced, never left empty");
    assert_eq!(ws.tabs[0].id, 1);
    assert_eq!(ws.next_id, 2);
}

#[test]
fn cycle_tab_on_single_tab_is_noop() {
    let mut ws = test_ws(1);
    assert!(!ws.cycle_tab(1, no_caret()));
    assert_eq!(ws.active, 0);
}

#[test]
fn cycle_tab_wraps_around_in_both_directions() {
    let mut ws = test_ws(3);
    ws.cycle_tab(-1, no_caret());
    assert_eq!(ws.active, 2);
    ws.cycle_tab(1, no_caret());
    assert_eq!(ws.active, 0);
    ws.cycle_tab(1, no_caret());
    assert_eq!(ws.active, 1);
}

#[test]
fn request_close_does_not_duplicate_an_already_queued_id() {
    let mut ws = test_ws(3);
    ws.tabs[0].dirty = true;
    ws.tabs[1].dirty = true;
    let _ = ws.request_close(0);
    let _ = ws.request_close(1);
    let _ = ws.request_close(1);
    assert_eq!(ws.close_queue.len(), 1);
}

#[test]
fn select_previous_active_tab_is_noop_for_a_stale_id() {
    let mut ws = test_ws(2);
    ws.previous_active_id = Some(999);
    assert!(!ws.select_previous_active(no_caret()));
    assert_eq!(ws.active, 0);
}

#[test]
fn select_previous_active_tab_toggles_back_and_forth() {
    let mut ws = test_ws(3);
    ws.switch_active(2, no_caret());
    assert_eq!(ws.active, 2);
    ws.select_previous_active(no_caret());
    assert_eq!(ws.active, 0);
    ws.select_previous_active(no_caret());
    assert_eq!(ws.active, 2);
}

#[test]
fn switch_active_records_previous_tab_id() {
    let mut ws = test_ws(3);
    ws.switch_active(1, no_caret());
    assert_eq!(ws.previous_active_id, Some(0));
    ws.switch_active(2, no_caret());
    assert_eq!(ws.previous_active_id, Some(1));
}

#[test]
fn key_pressed_cycles_focused_choice_both_directions_with_wraparound() {
    let mut ws = test_ws(1);
    ws.tabs[0].dirty = true;
    let _ = ws.request_close(0);
    assert_eq!(focused(&ws), 0);
    press(&mut ws, ModalKey::Right);
    assert_eq!(focused(&ws), 1);
    press(&mut ws, ModalKey::Tab);
    assert_eq!(focused(&ws), 2);
    press(&mut ws, ModalKey::Right);
    assert_eq!(focused(&ws), 0);
    press(&mut ws, ModalKey::ShiftTab);
    assert_eq!(focused(&ws), 2);
    press(&mut ws, ModalKey::Left);
    assert_eq!(focused(&ws), 1);
}

#[test]
fn key_pressed_enter_resolves_whichever_choice_is_focused() {
    let mut ws = test_ws(2);
    ws.tabs[0].dirty = true;
    let _ = ws.request_close(0);
    press(&mut ws, ModalKey::Right);
    let tabs_before = ws.tabs.len();
    press(&mut ws, ModalKey::Confirm);
    assert!(ws.modal.is_none());
    assert_eq!(ws.tabs.len(), tabs_before - 1);
}

#[test]
fn key_pressed_escape_always_cancels_regardless_of_focus() {
    let mut ws = test_ws(2);
    ws.tabs[0].dirty = true;
    let _ = ws.request_close(0);
    press(&mut ws, ModalKey::Right);
    let tabs_before = ws.tabs.len();
    press(&mut ws, ModalKey::Escape);
    assert!(ws.modal.is_none());
    assert_eq!(ws.tabs.len(), tabs_before);
}

#[test]
fn workspace_keys_without_a_dialog_belong_to_the_editor() {
    let mut ws = test_ws(1);
    assert_eq!(ws.modal_key(ModalKey::Escape), ModalKeyOutcome::NoModal);
}

#[test]
fn workspace_other_keys_are_swallowed_while_a_dialog_is_up() {
    let mut ws = test_ws(1);
    ws.tabs[0].dirty = true;
    let _ = ws.request_close(0);
    assert_eq!(ws.modal_key(ModalKey::Other), ModalKeyOutcome::Handled);
    assert_eq!(focused(&ws), 0);
}

#[test]
fn a_flagged_tab_says_so_in_its_title() {
    let mut tab = Tab::from_file(0, "/tmp/notes.txt".to_string(), "");
    assert_eq!(tab.title(), "notes.txt");
    tab.dirty = true;
    assert_eq!(tab.title(), "notes.txt \u{2022}");
    tab.externally_changed = true;
    assert_eq!(tab.title(), "notes.txt \u{2022} \u{26a0}");
}

#[test]
fn open_file_does_not_spawn_a_second_dialog_while_one_is_active() {
    let mut ws = test_ws(1);
    assert!(ws.begin_open());
    assert!(ws.file_dialog_active);
    assert!(!ws.begin_open(), "a second open while one is in flight is a no-op");
    assert!(ws.file_dialog_active);
}

#[test]
fn file_dialog_flag_resets_on_every_file_opened_outcome() {
    let mut ws = test_ws(1);
    ws.file_dialog_active = true;
    ws.open_dialog_finished();
    assert!(!ws.file_dialog_active);

    ws.file_dialog_active = true;
    let index = ws.file_opened("/tmp/x".to_string(), "text", None, no_caret());
    assert!(!ws.file_dialog_active);
    assert_eq!(index, 1);
    assert_eq!(ws.active, 1);
}

#[test]
fn file_dialog_flag_resets_on_every_file_saved_outcome() {
    let mut ws = test_ws(1);
    let id = ws.tabs[0].id;

    ws.file_dialog_active = true;
    let _ = ws.file_saved(id, SaveOutcome::DialogClosed);
    assert!(!ws.file_dialog_active);

    ws.file_dialog_active = true;
    let _ = ws.file_saved(id, SaveOutcome::Failed);
    assert!(!ws.file_dialog_active);

    ws.file_dialog_active = true;
    let action = ws.file_saved(id, SaveOutcome::Saved { path: "/tmp/x".to_string(), stamp: None });
    assert!(!ws.file_dialog_active);
    assert_eq!(action, SavedAction::Nothing);
    assert_eq!(ws.tabs[0].document.path.as_deref(), Some("/tmp/x"));
}

#[test]
fn the_unsaved_changes_prompt_turns_drops_away() {
    let mut ws = test_ws(1);
    ws.tabs[0].dirty = true;
    let _ = ws.request_close(0);
    assert_eq!(ws.file_dropped("/tmp/dropped.txt", no_caret()), DropOutcome::Ignored);
    assert!(ws.tabs[0].document.path.is_none(), "nothing was opened");
    assert_eq!(ws.tabs.len(), 1);
}

#[test]
fn dropping_an_already_open_file_focuses_its_tab() {
    let mut ws = test_ws(2);
    ws.tabs[1].document.path = Some("/tmp/already-open.txt".to_string());
    assert_eq!(ws.file_dropped("/tmp/already-open.txt", no_caret()), DropOutcome::Focused(1));
    assert_eq!(ws.tabs.len(), 2, "no duplicate tab");
    assert_eq!(ws.active, 1);
}

#[test]
fn workspace_dropping_a_new_file_asks_for_a_read() {
    let mut ws = test_ws(1);
    assert_eq!(ws.file_dropped("/tmp/new.txt", no_caret()), DropOutcome::Read);
    assert_eq!(ws.tabs.len(), 1);
}

#[test]
fn dropping_onto_a_file_backed_tab_opens_a_new_one() {
    let mut ws = test_ws(1);
    ws.tabs[0].document.path = Some("/tmp/already-open.txt".to_string());
    let index = ws.open_loaded_file("/tmp/dropped.txt".to_string(), "body", None, no_caret());
    assert_eq!(index, 1);
    assert_eq!(ws.tabs.len(), 2);
    assert_eq!(ws.active, 1);
    assert_eq!(ws.tabs[1].document.path.as_deref(), Some("/tmp/dropped.txt"));
    assert_eq!(ws.tabs[1].text, "body");
}

#[test]
fn dropping_onto_an_empty_scratch_tab_loads_into_it() {
    let mut ws = test_ws(1);
    let id = ws.tabs[0].id;
    let stamp = DiskStamp { mtime: 5, len: 4 };
    let index = ws.open_loaded_file("/tmp/dropped.txt".to_string(), "body", Some(stamp), no_caret());
    assert_eq!(index, 0);
    assert_eq!(ws.tabs.len(), 1, "no stray Untitled left behind");
    assert_eq!(ws.tabs[0].id, id, "the tab keeps its id");
    assert_eq!(ws.tabs[0].document.path.as_deref(), Some("/tmp/dropped.txt"));
    assert_eq!(ws.tabs[0].disk, Some(stamp));
}

#[test]
fn editor_messages_are_ignored_while_a_prompt_is_pending() {
    let mut ws = test_ws(1);
    ws.tabs[0].dirty = true;
    let generation_before = ws.tabs[0].draft_generation;
    let _ = ws.request_close(0);
    assert_eq!(ws.edited(0, "typed".to_string()), None);
    assert_eq!(ws.tabs[0].draft_generation, generation_before);
}

#[test]
fn workspace_an_edit_dirties_the_tab_once() {
    let mut ws = test_ws(1);
    assert_eq!(ws.edited(0, "a".to_string()), Some(true));
    assert_eq!(ws.edited(0, "ab".to_string()), Some(false));
    assert_eq!(ws.tabs[0].draft_generation, 2);
    assert_eq!(ws.tabs[0].text, "ab");
    assert!(ws.tabs[0].dirty);
}

#[test]
fn an_untitled_tab_is_never_swept() {
    let mut ws = test_ws(1);
    let (reads, deleted) = ws.resolve_disk_changes(&[None]);
    assert!(reads.is_empty());
    assert!(!deleted);
    assert!(!ws.tabs[0].dirty);
}

#[test]
fn switching_tabs_saves_and_restores_the_selection() {
    let mut ws = test_ws(2);
    let saved = SavedSelection { anchor: (0, 2), kind: SelectionKind::Range };
    ws.switch_active(1, Caret { cursor: (1, 4), selection: Some(saved) });
    assert_eq!(ws.tabs[0].last_selection, Some(saved));
    assert_eq!(ws.tabs[0].last_cursor, (1, 4));

    ws.switch_active(0, no_caret());
    assert_eq!(ws.active, 0);
    assert_eq!(ws.tabs[0].last_selection, Some(saved), "what the shell restores");
    assert_eq!(ws.tabs[0].last_cursor, (1, 4));
}

#[test]
fn switching_to_a_tab_without_a_selection_restores_only_the_cursor() {
    let mut ws = test_ws(2);
    ws.switch_active(1, Caret { cursor: (3, 1), selection: None });
    assert_eq!(ws.tabs[0].last_selection, None);
    ws.switch_active(0, no_caret());
    assert_eq!(ws.tabs[0].last_cursor, (3, 1));
    assert_eq!(ws.tabs[0].last_selection, None);
}

#[test]
fn workspace_new_tab_ids_are_fresh_and_never_reused() {
    let mut ws = test_ws(2);
    let id = ws.new_tab(no_caret());
    assert_eq!(id, 2);
    assert_eq!(ws.active, 2);
    let _ = ws.close_tab(2);
    let again = ws.new_tab(no_caret());
    assert_eq!(again, 3, "a closed tab's id does not come back");
    assert!(ws.tabs.iter().filter(|tab| tab.id == again).count() == 1);
}

#[test]
fn dropping_an_open_file_keeps_the_strip_and_remembers_the_tab_left() {
    let mut ws = test_ws(3);
    ws.tabs[2].document.path = Some("/tmp/open.txt".to_string());
    let caret = Caret { cursor: (4, 2), selection: None };
    assert_eq!(ws.file_dropped("/tmp/open.txt", caret), DropOutcome::Focused(2));
    assert_eq!(ws.tabs.iter().map(|tab| tab.id).collect::<Vec<_>>(), vec![0, 1, 2]);
    assert_eq!(ws.previous_active_id, Some(0));
    assert_eq!(ws.tabs[0].last_cursor, (4, 2));
}

#[test]
fn draining_closes_every_clean_queued_tab_and_names_them() {
    let mut ws = test_ws(4);
    ws.tabs[0].dirty = true;
    ws.tabs[1].dirty = true;
    ws.tabs[2].dirty = true;
    let _ = ws.request_close(0);
    let _ = ws.request_close(1);
    let _ = ws.request_close(2);
    assert_eq!(ws.close_queue, vec![1, 2]);
    ws.tabs[1].dirty = false;
    ws.tabs[2].dirty = false;
    let (_, closed) = ws.close_confirmed(0, CloseDecision::Cancel, false);
    assert_eq!(closed, vec![1, 2]);
    assert!(ws.modal.is_none());
    assert_eq!(ws.tabs.iter().map(|tab| tab.id).collect::<Vec<_>>(), vec![0, 3]);
}

#[test]
fn draining_skips_a_closed_tab_and_prompts_for_the_next_dirty_one() {
    let mut ws = test_ws(3);
    ws.tabs[0].dirty = true;
    ws.tabs[1].dirty = true;
    ws.tabs[2].dirty = true;
    let _ = ws.request_close(0);
    let _ = ws.request_close(1);
    let _ = ws.request_close(2);
    ws.tabs.remove(1);
    let (_, closed) = ws.close_confirmed(0, CloseDecision::Cancel, false);
    assert!(closed.is_empty());
    let modal = ws.modal.as_ref().expect("the prompt for the next queued tab");
    assert_eq!((modal.kind, modal.tab_id, modal.focused), (ModalKind::Close, 2, 0));
    assert!(ws.close_queue.is_empty());
}
