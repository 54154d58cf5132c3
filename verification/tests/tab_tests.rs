use jumppad::tab::{Document, Tab};

#[test]
fn display_name_is_the_file_name_or_untitled() {
    assert_eq!(Document { path: Some("/home/me/notes.txt".to_string()) }.display_name(), "notes.txt");
    assert_eq!(Document { path: None }.display_name(), "Untitled");
    assert_eq!(Document { path: Some("/".to_string()) }.display_name(), "Untitled");
    assert_eq!(Document::default().display_name(), "Untitled");
}

#[test]
fn title_marks_unsaved_and_externally_changed_tabs() {
    let mut tab = Tab::from_file(3, "/tmp/a.md".to_string(), "text");
    assert_eq!(tab.title(), "a.md");
    tab.dirty = true;
    assert_eq!(tab.title(), "a.md \u{2022}");
    tab.externally_changed = true;
    assert_eq!(tab.title(), "a.md \u{2022} \u{26a0}");
    let untitled = Tab::untitled(4);
    assert_eq!(untitled.title(), "Untitled");
    assert!(untitled.text.is_empty());
}
