use jumppad::disk::DiskStamp;
use jumppad::reload::{classify, ConfigWatch, FileState, Fingerprint, WatchedFile, RELOAD_DEBOUNCE};

const START: u64 = 9_000_000_000;

fn fingerprint_at(path: &str, mtime_secs: u64, len: u64) -> Option<Fingerprint> {
    Some(Fingerprint {
        path: path.to_string(),
        stamp: DiskStamp { mtime: mtime_secs as i128 * 1_000_000_000, len },
    })
}

fn beyond_debounce() -> u64 {
    RELOAD_DEBOUNCE + 1_000_000
}

fn classify_matches_the_two_config_filenames_only() {
    assert_eq!(classify("/some/dir/config.toml"), Some(WatchedFile::Config));
    assert_eq!(classify("keybinds.toml"), Some(WatchedFile::Keybinds));
    assert_eq!(classify("/some/dir/notes.txt"), None);
    assert_eq!(classify("/some/dir/config.toml.bak"), None);
}

fn observe_reports_every_kind_of_movement_once() {
    let mut state = FileState { fingerprint: fingerprint_at("config.toml", 1, 10), dirty: false };
    assert!(!state.observe(fingerprint_at("config.toml", 1, 10)), "unchanged");
    assert!(state.observe(fingerprint_at("config.toml", 2, 10)), "mtime moved");
    assert!(state.observe(fingerprint_at("config.toml", 2, 11)), "length moved");
    assert!(state.observe(fingerprint_at("other/config.toml", 2, 11)), "candidate flipped");
    assert!(state.observe(None), "disappeared");
    assert!(state.observe(fingerprint_at("config.toml", 3, 5)), "appeared");
    assert!(!state.observe(fingerprint_at("config.toml", 3, 5)));
}

fn a_settled_burst_reports_each_dirty_file_once() {
    let mut watch = ConfigWatch::seeded(None, None);
    let start = START;
    watch.note_event(WatchedFile::Config, start);
    watch.note_event(WatchedFile::Keybinds, start);
    assert!(watch.pending());
    assert_eq!(
        watch.settled_with(None, None, start + beyond_debounce()),
        vec![WatchedFile::Config, WatchedFile::Keybinds]
    );
    assert!(!watch.pending());
    assert!(watch.settled_with(None, None, start + beyond_debounce() * 2).is_empty());
}

fn an_unsettled_burst_reports_nothing() {
    let mut watch = ConfigWatch::seeded(None, None);
    let start = START;
    watch.note_event(WatchedFile::Config, start);
    assert!(watch.settled_with(None, None, start + RELOAD_DEBOUNCE / 2).is_empty());
    assert!(watch.pending(), "the burst is still waiting");
}

#[test]
fn reload_classify_matches_the_two_config_filenames_only() {
    classify_matches_the_two_config_filenames_only();
}

#[test]
fn reload_observe_reports_every_kind_of_movement_once() {
    observe_reports_every_kind_of_movement_once();
}

#[test]
fn reload_a_settled_burst_reports_each_dirty_file_once() {
    a_settled_burst_reports_each_dirty_file_once();
}

#[test]
fn reload_an_unsettled_burst_reports_nothing() {
    an_unsettled_burst_reports_nothing();
}

#[test]
fn reload_tests_classify_matches_the_two_config_filenames_only() {
    classify_matches_the_two_config_filenames_only();
}

#[test]
fn reload_tests_observe_reports_every_kind_of_movement_once() {
    observe_reports_every_kind_of_movement_once();
}

#[test]
fn reload_tests_a_settled_burst_reports_each_dirty_file_once() {
    a_settled_burst_reports_each_dirty_file_once();
}

#[test]
fn reload_tests_an_unsettled_burst_reports_nothing() {
    an_unsettled_burst_reports_nothing();
}

#[test]
fn a_fingerprint_check_dirties_only_what_moved() {
    let seeded = fingerprint_at("config.toml", 1, 10);
    let mut watch = ConfigWatch::seeded(seeded.clone(), None);
    let start = START;
    watch.check_with(seeded.clone(), None, start);
    assert!(!watch.pending());
    watch.check_with(fingerprint_at("config.toml", 2, 10), None, start);
    assert_eq!(watch.settled_with(None, None, start + beyond_debounce()), vec![WatchedFile::Config]);
}

#[test]
fn note_saved_ignores_paths_that_are_not_a_config_file() {
    let mut watch = ConfigWatch::seeded(None, None);
    watch.note_saved("/tmp/notes.txt", true, START);
    assert!(!watch.pending());
}

#[test]
fn note_saved_dirties_the_effective_file_only() {
    let mut watch = ConfigWatch::new(None, None);
    watch.note_saved("/home/me/.config/jumppad/keybinds.toml", false, START);
    assert!(!watch.pending(), "a keybinds.toml elsewhere is not the effective one");
    watch.note_saved("/home/me/.config/jumppad/keybinds.toml", true, START);
    assert!(watch.pending());
    assert_eq!(watch.settled_with(None, None, START + beyond_debounce()), vec![WatchedFile::Keybinds]);
}

#[test]
fn watched_file_names() {
    assert_eq!(WatchedFile::Config.name(), "config.toml");
    assert_eq!(WatchedFile::Keybinds.name(), "keybinds.toml");
}

#[test]
fn reload_a_fingerprint_check_dirties_only_what_moved() {
    a_fingerprint_check_dirties_only_what_moved();
}

#[test]
fn reload_tests_a_fingerprint_check_dirties_only_what_moved() {
    a_fingerprint_check_dirties_only_what_moved();
}

#[test]
fn reload_note_saved_ignores_paths_that_are_not_a_config_file() {
    note_saved_ignores_paths_that_are_not_a_config_file();
}

#[test]
fn reload_tests_note_saved_ignores_paths_that_are_not_a_config_file() {
    note_saved_ignores_paths_that_are_not_a_config_file();
}

#[test]
fn a_config_change_settles_exactly_once_just_after_the_window() {
    let mut watch = ConfigWatch::seeded(fingerprint_at("config.toml", 1, 10), None);
    watch.note_event(WatchedFile::Config, START);
    assert!(watch.pending());
    let same = fingerprint_at("config.toml", 1, 10);
    assert!(watch.settled_with(same.clone(), None, START + RELOAD_DEBOUNCE).is_empty(), "not past the window yet");
    assert_eq!(watch.settled_with(same.clone(), None, START + RELOAD_DEBOUNCE + 1), vec![WatchedFile::Config]);
    assert!(!watch.pending());
    assert!(watch.settled_with(same, None, START + 2 * RELOAD_DEBOUNCE).is_empty(), "reported once");
}
