use jumppad::history::{History, COALESCE_WINDOW, MAX_DEPTH};

const T0: u64 = 1_000_000_000;
const MS: u64 = 1_000_000;

#[test]
fn undo_on_empty_history_returns_none() {
    let mut history = History::new();
    assert!(history.undo("abc", (0, 3)).is_none());
}

#[test]
fn redo_on_empty_history_returns_none() {
    let mut history = History::new();
    assert!(history.redo("abc", (0, 3)).is_none());
}

#[test]
fn undo_restores_previous_text_and_cursor() {
    let mut history = History::new();
    history.record_before_edit("abc", (0, 3));
    let restored = history.undo("abcd", (0, 4));
    assert_eq!(restored, Some(("abc".to_string(), (0, 3))));
}

#[test]
fn redo_after_undo_restores_the_undone_state() {
    let mut history = History::new();
    history.record_before_edit("abc", (0, 3));
    history.undo("abcd", (0, 4));
    let restored = history.redo("abc", (0, 3));
    assert_eq!(restored, Some(("abcd".to_string(), (0, 4))));
}

#[test]
fn new_edit_after_undo_clears_redo_stack() {
    let mut history = History::new();
    history.record_before_edit("abc", (0, 3));
    history.undo("abcd", (0, 4));
    history.record_before_edit_at("abc", (0, 3), T0);
    assert!(history.redo("abcX", (0, 4)).is_none());
}

#[test]
fn rapid_edits_within_coalesce_window_collapse_to_one_undo_step() {
    let mut history = History::new();
    let t0 = T0;
    history.record_before_edit_at("a", (0, 1), t0);
    history.record_before_edit_at("ab", (0, 2), t0 + 100 * MS);
    history.record_before_edit_at("abc", (0, 3), t0 + 200 * MS);
    let restored = history.undo("abcd", (0, 4));
    assert_eq!(restored, Some(("a".to_string(), (0, 1))));
    assert!(history.undo("abcd", (0, 4)).is_none());
}

#[test]
fn edits_spaced_past_the_coalesce_window_produce_separate_undo_steps() {
    let mut history = History::new();
    let t0 = T0;
    history.record_before_edit_at("a", (0, 1), t0);
    history.record_before_edit_at("ab", (0, 2), t0 + COALESCE_WINDOW + MS);
    let restored = history.undo("abc", (0, 3));
    assert_eq!(restored, Some(("ab".to_string(), (0, 2))));
    let restored = history.undo("ab", (0, 2));
    assert_eq!(restored, Some(("a".to_string(), (0, 1))));
}

#[test]
fn undo_stack_is_capped_at_max_depth() {
    let mut history = History::new();
    let t0 = T0;
    for i in 0..MAX_DEPTH + 10 {
        let gap = t0 + (COALESCE_WINDOW + MS) * i as u64;
        history.record_before_edit_at(&i.to_string(), (0, 0), gap);
    }
    let mut depth = 0;
    while history.undo("now", (0, 0)).is_some() {
        depth += 1;
    }
    assert_eq!(depth, MAX_DEPTH);
}

#[test]
fn the_oldest_step_is_the_one_dropped_at_the_cap() {
    let mut history = History::new();
    for i in 0..MAX_DEPTH + 1 {
        let at = T0 + (COALESCE_WINDOW + MS) * i as u64;
        history.record_before_edit_at(&i.to_string(), (0, i), at);
    }
    let mut last = None;
    while let Some(step) = history.undo("now", (0, 0)) {
        last = Some(step);
    }
    assert_eq!(last, Some(("1".to_string(), (0, 1))));
}

#[test]
fn undo_then_redo_returns_to_where_it_started() {
    let mut history = History::new();
    history.record_before_edit_at("before", (0, 6), T0);
    let undone = history.undo("after", (0, 5)).expect("a step to undo");
    let redone = history.redo(&undone.0, undone.1).expect("a step to redo");
    assert_eq!(redone, ("after".to_string(), (0, 5)));
    assert_eq!(history.undo("after", (0, 5)), Some(("before".to_string(), (0, 6))));
}
