use jumppad::debug::is_true;

#[test]
fn the_usual_spellings_of_yes_all_count() {
    for value in ["1", "true", "TRUE", "True", "yes", "on", " true "] {
        assert!(is_true(value), "{value:?} should read as on");
    }
}

#[test]
fn everything_else_reads_as_off() {
    for value in ["", " ", "0", "false", "no", "off", "2", "please"] {
        assert!(!is_true(value), "{value:?} should read as off");
    }
}

#[test]
fn unicode_white_space_is_trimmed_too() {
    assert!(is_true("\u{3000}YES\t\n"));
    assert!(is_true("\u{a0}On\u{2009}"));
    assert!(!is_true("o n"));
}
