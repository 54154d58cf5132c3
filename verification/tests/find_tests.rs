use jumppad::find::{find_matches, FindMatch};

/// The matched text itself, for asserting on results readably.
fn matched<'a>(text: &'a str, found: &FindMatch) -> &'a str {
    let line = text.split('\n').nth(found.line).expect("line in range");
    &line[found.start..found.end]
}

#[test]
fn matches_regardless_of_case() {
    let text = "Hello HELLO hello";
    let found = find_matches(text, "hello");
    assert_eq!(found.len(), 3);
    assert_eq!(found[0], FindMatch { line: 0, start: 0, end: 5 });
    assert!(found.iter().all(|f| matched(text, f).eq_ignore_ascii_case("hello")));
    assert_eq!(find_matches(text, "HeLLo").len(), 3);
}

#[test]
fn reports_line_relative_columns_across_lines() {
    let text = "one two\nthree two";
    let found = find_matches(text, "two");
    assert_eq!(
        found,
        vec![FindMatch { line: 0, start: 4, end: 7 }, FindMatch { line: 1, start: 6, end: 9 }]
    );
}

#[test]
fn empty_query_matches_nothing() {
    assert!(find_matches("anything at all", "").is_empty());
}

#[test]
fn absent_query_matches_nothing() {
    assert!(find_matches("one two three", "zebra").is_empty());
}

#[test]
fn occurrences_do_not_overlap() {
    let found = find_matches("aaa", "aa");
    assert_eq!(found, vec![FindMatch { line: 0, start: 0, end: 2 }]);
}

#[test]
fn carriage_returns_are_not_part_of_the_line() {
    let text = "find me\r\nsecond";
    let found = find_matches(text, "me");
    assert_eq!(found, vec![FindMatch { line: 0, start: 5, end: 7 }]);
}

#[test]
fn non_ascii_text_keeps_offsets_aligned() {
    let text = "CAF\u{c9} and caf\u{e9}";
    let found = find_matches(text, "caf\u{e9}");
    assert_eq!(found.len(), 2);
    assert_eq!(matched(text, &found[0]), "CAF\u{c9}");
    assert_eq!(matched(text, &found[1]), "caf\u{e9}");
}

#[test]
fn a_match_inside_a_growing_lowercase_expansion_covers_the_character() {
    let text = "\u{130}stanbul";
    let found = find_matches(text, "i");
    assert_eq!(found.len(), 1);
    assert_eq!(matched(text, &found[0]), "\u{130}");
}

#[test]
fn matches_are_ordered_and_slice_cleanly() {
    let text = "ab ab\nab";
    let found = find_matches(text, "ab");
    assert_eq!(found.len(), 3);
    for entry in &found {
        assert_eq!(matched(text, entry), "ab");
    }
}

#[test]
fn a_query_can_match_at_the_very_end_of_the_text() {
    let found = find_matches("x\nend", "end");
    assert_eq!(found, vec![FindMatch { line: 1, start: 0, end: 3 }]);
}

#[test]
fn empty_lines_are_counted() {
    let found = find_matches("\n\nz", "Z");
    assert_eq!(found, vec![FindMatch { line: 2, start: 0, end: 1 }]);
}

#[test]
fn ascii_case_changes_of_a_query_find_the_same_matches() {
    let text = "Hello HELLO hello\nhElLo there";
    let mixed = find_matches(text, "HeLLo");
    assert_eq!(mixed.len(), 4);
    assert_eq!(mixed[0], FindMatch { line: 0, start: 0, end: 5 });
    assert_eq!(mixed[3], FindMatch { line: 1, start: 0, end: 5 });
    assert_eq!(find_matches(text, &"HeLLo".to_ascii_uppercase()), mixed);
    assert_eq!(find_matches(text, &"HeLLo".to_ascii_lowercase()), mixed);
}
