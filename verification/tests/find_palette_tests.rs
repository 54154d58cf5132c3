use jumppad::find::FindMatch;
use jumppad::find_palettes::FindPalettes;

/// A tab's editor as far as find sees it: its text and its cursor, which
/// moves to the end of whatever match gets selected.
struct Editor {
    text: String,
    cursor: (usize, usize),
}

impl Editor {
    fn new(text: &str) -> Self {
        Editor { text: text.to_string(), cursor: (0, 0) }
    }

    fn select(&mut self, found: Option<FindMatch>) {
        if let Some(found) = found {
            self.cursor = (found.line, found.end);
        }
    }
}

fn counter(palettes: &FindPalettes, id: u64) -> Option<String> {
    palettes.get(id).expect("a palette").counter()
}

fn open_with(palettes: &mut FindPalettes, id: u64, editor: &mut Editor, query: &str) {
    let found = palettes.open(id, &editor.text, editor.cursor);
    editor.select(found);
    let found = palettes.query_changed(id, query.to_string(), &editor.text, false).expect("not a leak");
    editor.select(found);
}

#[test]
fn opening_find_searches_and_selects_the_first_match() {
    let mut palettes = FindPalettes::new();
    let mut editor = Editor::new("one two\nthree two");
    open_with(&mut palettes, 0, &mut editor, "two");
    let state = palettes.get(0).expect("palette open");
    assert!(state.open);
    assert_eq!(state.matches.len(), 2);
    assert_eq!(state.counter().as_deref(), Some("1 of 2"));
    assert_eq!(editor.cursor, (0, 7));
}

#[test]
fn find_next_and_previous_step_and_wrap() {
    let mut palettes = FindPalettes::new();
    let mut editor = Editor::new("one two\nthree two");
    open_with(&mut palettes, 0, &mut editor, "two");

    let found = palettes.find_again(0, true, &editor.text, editor.cursor);
    editor.select(found);
    assert_eq!(counter(&palettes, 0).as_deref(), Some("2 of 2"));
    assert_eq!(editor.cursor, (1, 9));

    let found = palettes.find_again(0, true, &editor.text, editor.cursor);
    editor.select(found);
    assert_eq!(counter(&palettes, 0).as_deref(), Some("1 of 2"), "next past the last wraps");

    let found = palettes.find_again(0, false, &editor.text, editor.cursor);
    editor.select(found);
    assert_eq!(counter(&palettes, 0).as_deref(), Some("2 of 2"), "previous before the first wraps");
}

#[test]
fn each_tab_keeps_its_own_find_query() {
    let mut palettes = FindPalettes::new();
    let mut first = Editor::new("alpha beta");
    let mut second = Editor::new("gamma delta gamma");
    open_with(&mut palettes, 0, &mut first, "beta");

    assert!(!palettes.is_open(1), "tab 1 has no palette of its own yet");
    open_with(&mut palettes, 1, &mut second, "gamma");
    assert_eq!(counter(&palettes, 1).as_deref(), Some("1 of 2"));

    palettes.refresh(0, &first.text);
    let state = palettes.get(0).expect("tab 0 palette");
    assert_eq!(state.query, "beta");
    assert_eq!(state.counter().as_deref(), Some("1 of 1"));
    assert_eq!(palettes.get(1).unwrap().query, "gamma");
}

#[test]
fn escape_closes_the_palette_but_keeps_the_query() {
    let mut palettes = FindPalettes::new();
    let mut editor = Editor::new("one two");
    open_with(&mut palettes, 0, &mut editor, "two");
    assert!(palettes.is_open(0));

    assert!(palettes.close(0, false));
    assert!(!palettes.is_open(0), "escape closes the palette");
    assert_eq!(palettes.get(0).map(|s| s.query.as_str()), Some("two"), "the query survives for next time");
    let (colored, current) = palettes.highlights(0);
    assert!(colored.is_empty());
    assert_eq!(current, None);

    let _ = palettes.open(0, &editor.text, editor.cursor);
    assert!(palettes.is_open(0));
    assert_eq!(palettes.get(0).unwrap().matches.len(), 1);
}

#[test]
fn escape_leaves_the_find_palette_alone_while_the_modal_is_up() {
    let mut palettes = FindPalettes::new();
    let mut editor = Editor::new("one two");
    open_with(&mut palettes, 0, &mut editor, "two");
    assert!(!palettes.close(0, true));
    assert!(palettes.is_open(0), "the modal owns Escape while it is up");
}

#[test]
fn command_g_finds_again_with_the_palette_closed() {
    let mut palettes = FindPalettes::new();
    let mut editor = Editor::new("two one two");
    open_with(&mut palettes, 0, &mut editor, "two");
    palettes.close(0, false);
    assert!(!palettes.is_open(0));
    assert_eq!(editor.cursor, (0, 3), "on the first match");

    let found = palettes.find_again(0, true, &editor.text, editor.cursor);
    editor.select(found);
    assert!(!palettes.is_open(0), "find-again must not reopen the palette");
    assert_eq!(editor.cursor, (0, 11), "second match");

    let found = palettes.find_again(0, true, &editor.text, editor.cursor);
    editor.select(found);
    assert_eq!(editor.cursor, (0, 3));
}

#[test]
fn find_again_without_a_query_does_nothing() {
    let mut palettes = FindPalettes::new();
    let editor = Editor::new("one two");
    assert_eq!(palettes.find_again(0, true, &editor.text, editor.cursor), None);
    assert!(palettes.get(0).is_none());
}

#[test]
fn find_on_a_missing_match_reports_no_results() {
    let mut palettes = FindPalettes::new();
    let mut editor = Editor::new("one two");
    open_with(&mut palettes, 0, &mut editor, "zebra");
    let state = palettes.get(0).unwrap();
    assert!(state.matches.is_empty());
    assert_eq!(state.counter().as_deref(), Some("No results"));

    assert_eq!(palettes.find_again(0, true, &editor.text, editor.cursor), None);
    assert_eq!(palettes.get(0).unwrap().current, None);
}

#[test]
fn find_matches_case_insensitively_through_the_app() {
    let mut palettes = FindPalettes::new();
    let mut editor = Editor::new("Two two TWO");
    open_with(&mut palettes, 0, &mut editor, "two");
    assert_eq!(counter(&palettes, 0).as_deref(), Some("1 of 3"));
}

#[test]
fn closing_a_tab_forgets_its_find_state() {
    let mut palettes = FindPalettes::new();
    let mut editor = Editor::new("one two");
    let mut other = Editor::new("other two");
    open_with(&mut palettes, 0, &mut editor, "two");
    open_with(&mut palettes, 1, &mut other, "two");
    assert!(palettes.get(0).is_some());

    palettes.forget(0);
    assert!(palettes.get(0).is_none());
    assert_eq!(palettes.get(1).unwrap().query, "two", "the other tab's palette stays");
}

#[test]
fn find_again_steps_while_the_palette_is_open() {
    let mut palettes = FindPalettes::new();
    let mut editor = Editor::new("two one two three two");
    open_with(&mut palettes, 0, &mut editor, "two");
    assert_eq!(counter(&palettes, 0).as_deref(), Some("1 of 3"));

    let found = palettes.find_again(0, true, &editor.text, editor.cursor);
    editor.select(found);
    assert!(palettes.is_open(0));
    assert_eq!(counter(&palettes, 0).as_deref(), Some("2 of 3"));

    let found = palettes.find_again(0, false, &editor.text, editor.cursor);
    editor.select(found);
    assert_eq!(counter(&palettes, 0).as_deref(), Some("1 of 3"));
    let found = palettes.find_again(0, false, &editor.text, editor.cursor);
    editor.select(found);
    assert_eq!(counter(&palettes, 0).as_deref(), Some("3 of 3"), "previous past the first wraps");
}

#[test]
fn a_shortcut_character_leaked_while_command_is_held_is_not_typed_into_the_query() {
    let mut palettes = FindPalettes::new();
    let mut editor = Editor::new("one two");
    open_with(&mut palettes, 0, &mut editor, "tw");
    assert_eq!(palettes.query_changed(0, "twg".to_string(), &editor.text, true), None);
    assert_eq!(palettes.get(0).unwrap().query, "tw");
    assert!(palettes.query_changed(0, "two".to_string(), &editor.text, false).is_some());
    assert_eq!(palettes.get(0).unwrap().query, "two");
    assert!(
        palettes.query_changed(0, "two one".to_string(), &editor.text, true).is_some(),
        "a paste arriving with command held still lands"
    );
}

#[test]
fn editing_the_document_refreshes_the_match_list() {
    let mut palettes = FindPalettes::new();
    let mut editor = Editor::new("two");
    open_with(&mut palettes, 0, &mut editor, "two");
    assert_eq!(palettes.get(0).unwrap().matches.len(), 1);
    editor.text.push_str(" two");
    palettes.refresh(0, &editor.text);
    assert_eq!(palettes.get(0).unwrap().matches.len(), 2);
}

#[test]
fn find_again_picks_up_document_edits_made_while_closed() {
    let mut palettes = FindPalettes::new();
    let mut editor = Editor::new("two");
    open_with(&mut palettes, 0, &mut editor, "two");
    palettes.close(0, false);
    assert_eq!(palettes.get(0).unwrap().matches.len(), 1);

    editor.text.push_str(" two");
    palettes.refresh(0, &editor.text);
    assert_eq!(palettes.get(0).unwrap().matches.len(), 1, "a closed palette does not search");

    editor.cursor = (0, 0);
    let found = palettes.find_again(0, true, &editor.text, editor.cursor);
    editor.select(found);
    assert_eq!(palettes.get(0).unwrap().matches.len(), 2, "the stale match list was re-searched");
    assert_eq!(editor.cursor, (0, 7), "the new match");
}

#[test]
fn a_reload_refreshes_the_find_state_of_the_tab_that_moved() {
    let mut palettes = FindPalettes::new();
    let mut background = Editor::new("one two two");
    open_with(&mut palettes, 1, &mut background, "two");
    assert_eq!(palettes.get(1).unwrap().matches.len(), 2);
    background.text = "one".to_string();
    palettes.refresh(1, &background.text);
    assert_eq!(palettes.get(1).unwrap().matches.len(), 0);
}

#[test]
fn find_palettes_a_click_on_a_match_moves_the_counter() {
    let mut palettes = FindPalettes::new();
    let mut editor = Editor::new("two one two");
    open_with(&mut palettes, 0, &mut editor, "two");
    assert_eq!(counter(&palettes, 0).as_deref(), Some("1 of 2"));
    palettes.sync_counter(0, (0, 9));
    assert_eq!(counter(&palettes, 0).as_deref(), Some("2 of 2"));
    palettes.sync_counter(0, (0, 5));
    assert_eq!(counter(&palettes, 0).as_deref(), Some("2 of 2"), "between matches nothing moves");
    let (colored, current) = palettes.highlights(0);
    assert_eq!(colored.len(), 2);
    assert_eq!(current, Some(1));
}

#[test]
fn a_modal_leaves_focus_where_the_app_is_handling_it() {
    let palettes = FindPalettes::new();
    assert_eq!(jumppad::find_palettes::focus_target(true, &palettes, 0), None);
}

#[test]
fn a_new_window_gives_its_focus_to_the_editor() {
    let palettes = FindPalettes::new();
    assert_eq!(
        jumppad::find_palettes::focus_target(false, &palettes, 0),
        Some(jumppad::find_palettes::FocusTarget::Editor)
    );
}

#[test]
fn a_new_window_under_an_open_palette_focuses_the_query() {
    let mut palettes = FindPalettes::new();
    let mut editor = Editor::new("one two");
    open_with(&mut palettes, 0, &mut editor, "two");
    assert_eq!(
        jumppad::find_palettes::focus_target(false, &palettes, 0),
        Some(jumppad::find_palettes::FocusTarget::FindInput)
    );
    palettes.close(0, false);
    assert_eq!(
        jumppad::find_palettes::focus_target(false, &palettes, 0),
        Some(jumppad::find_palettes::FocusTarget::Editor)
    );
}
