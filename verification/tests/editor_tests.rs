use jumppad::editor::{editor_command_named, highlight_ranges, line_starts, EditorCommand, Highlight, SyntaxSpan};
use jumppad::find::FindMatch;
use jumppad::grammars::{
    build_wasm, checkout_name, clone_command, clones, grammars, install_tree_sitter, part, run_result, source_dir, whole,
    Assembled, RunOutcome,
};

#[test]
fn line_starts_follow_every_newline() {
    assert_eq!(line_starts(""), vec![0]);
    assert_eq!(line_starts("one\ntwo\n"), vec![0, 4, 8]);
    assert_eq!(line_starts("é\nx"), vec![0, 3], "offsets count bytes");
}

#[test]
fn editor_commands_resolve_by_their_override_names() {
    assert_eq!(editor_command_named("word_delete_backward"), Some(EditorCommand::WordDeleteBackward));
    assert_eq!(editor_command_named("select_document_end"), Some(EditorCommand::SelectDocumentEnd));
    assert_eq!(editor_command_named("redo"), Some(EditorCommand::Redo));
    assert_eq!(editor_command_named("not_a_command"), None);
}

#[test]
fn grammars_checkout_name_is_the_repository_name() {
    assert_eq!(checkout_name("tree-sitter/tree-sitter-json"), "tree-sitter-json");
    assert_eq!(checkout_name("plain"), "plain");
    assert_eq!(checkout_name("owner/"), "");
}

#[test]
fn grammars_a_shared_repository_is_cloned_once() {
    let all = grammars();
    assert_eq!(all.len(), 14);
    let cloned = clones(&all);
    assert_eq!(cloned.iter().filter(|c| **c).count(), 10);
    assert!(cloned[7], "the first xml grammar clones");
    assert!(!cloned[8], "dtd shares the xml checkout");
    assert!(all[12].injections && all[13].injections);
    assert_eq!(all[13].bundle, "markdown_inline");
}

#[test]
fn grammars_sources_and_commands() {
    assert_eq!(source_dir("/tmp/xml", ""), "/tmp/xml");
    assert_eq!(source_dir("/tmp/xml", "dtd"), "/tmp/xml/dtd");
    let g = part("o/r", "s", "b").with_injections();
    assert!(g.injections);
    assert_eq!(whole("o/r", "b").subdirectory, "");

    let install = install_tree_sitter("/s", false);
    assert_eq!(install.program, "npm");
    assert_eq!(install.args, vec!["install".to_string()]);
    assert_eq!(install.current_dir.as_deref(), Some("/s"));
    assert_eq!(install.what, "npm install");

    let build = build_wasm("/s", "/src", "/out/syntax.wasm", true);
    assert_eq!(build.program, "cmd");
    assert_eq!(
        build.args,
        ["/C", "npx", "--yes", "tree-sitter-cli", "build", "--wasm", "-o", "/out/syntax.wasm", "/src"]
            .iter()
            .map(|s| s.to_string())
            .collect::<Vec<_>>()
    );
}

#[test]
fn grammars_assembled_counts_each_bundle() {
    let mut assembled = Assembled::new("/s/output".to_string());
    assembled.count_bundle(true);
    assembled.count_bundle(false);
    assembled.count_bundle(false);
    assert_eq!(assembled.with_grammar, 1);
    assert_eq!(assembled.configs_only, 2);
}

#[test]
fn debug_console_attach_is_a_no_op_here() {
    jumppad::debug::attach();
    assert!(jumppad::debug::attach_to_parent());
}

fn lines(text: &str) -> Vec<String> {
    text.split('\n').map(str::to_string).collect()
}

#[test]
fn clamp_position_clamps_line_and_column_to_the_document() {
    let content = lines("hello\nhi");
    assert_eq!(jumppad::editor::clamp_position(&content, (9, 9)), (1, 2));
    assert_eq!(jumppad::editor::clamp_position(&content, (0, 3)), (0, 3));
}

#[test]
fn clamp_position_backs_up_to_a_char_boundary() {
    let content = lines("héllo");
    assert_eq!(jumppad::editor::clamp_position(&content, (0, 2)), (0, 1));
}

#[test]
fn clamp_position_in_an_empty_document_is_the_start() {
    assert_eq!(jumppad::editor::clamp_position(&Vec::new(), (3, 4)), (0, 0));
}

#[test]
fn highlight_line_emits_a_span_per_match_on_that_line() {
    let source = "find me\nand me";
    let starts = line_starts(source);
    let matches = vec![FindMatch { line: 0, start: 5, end: 7 }, FindMatch { line: 1, start: 4, end: 6 }];
    let first = highlight_ranges(&Vec::new(), &starts, 0, "find me".len(), &matches, Some(1));
    assert_eq!(first, vec![(5, 7, Highlight::Match)]);
    let second = highlight_ranges(&Vec::new(), &starts, 1, "and me".len(), &matches, Some(1));
    assert_eq!(second, vec![(4, 6, Highlight::CurrentMatch)]);
    assert!(highlight_ranges(&Vec::new(), &starts, 2, 0, &matches, None).is_empty());
}

#[test]
fn match_spans_come_after_syntax_spans_so_they_win_on_overlap() {
    let keyword = 3;
    let spans = vec![SyntaxSpan { start: 0, end: 7, category: keyword }];
    let ranges = highlight_ranges(
        &spans,
        &line_starts("keyword"),
        0,
        7,
        &vec![FindMatch { line: 0, start: 0, end: 7 }],
        None,
    );
    assert_eq!(ranges, vec![(0, 7, Highlight::Syntax(keyword)), (0, 7, Highlight::Match)], "the match span must be last");
}

#[test]
fn editor_syntax_spans_are_cut_to_the_line() {
    let starts = line_starts("ab\ncdef\ng");
    let spans = vec![
        SyntaxSpan { start: 1, end: 5, category: 1 },
        SyntaxSpan { start: 0, end: 2, category: 2 },
        SyntaxSpan { start: 6, end: 9, category: 3 },
    ];
    let ranges = highlight_ranges(&spans, &starts, 1, 4, &Vec::new(), None);
    assert_eq!(ranges, vec![(0, 2, Highlight::Syntax(1)), (3, 4, Highlight::Syntax(3))]);
}

#[test]
fn grammars_a_run_is_ok_only_when_it_started_and_succeeded() {
    use_run_result();
}

fn use_run_result() {
    let install = install_tree_sitter("/s", false);
    assert_eq!(run_result(&install, RunOutcome::Exited { success: true, status: "exit status: 0".to_string() }), Ok(()));
    assert_eq!(
        run_result(&install, RunOutcome::Exited { success: false, status: "exit status: 1".to_string() }),
        Err("npm install: exit status: 1".to_string())
    );
    assert_eq!(
        run_result(&install, RunOutcome::NotStarted("No such file or directory (os error 2)".to_string())),
        Err("npm install: No such file or directory (os error 2)".to_string())
    );
    let build = build_wasm("/s", "/src", "/out/syntax.wasm", false);
    assert_eq!(build.what, "building /out/syntax.wasm");
    let clone = clone_command("tree-sitter/tree-sitter-json", "/tmp/tree-sitter-json");
    assert_eq!(clone.program, "git");
    assert_eq!(
        clone.args,
        ["clone", "--quiet", "--depth", "1", "https://github.com/tree-sitter/tree-sitter-json.git", "/tmp/tree-sitter-json"]
            .iter()
            .map(|s| s.to_string())
            .collect::<Vec<_>>()
    );
    assert_eq!(clone.current_dir, None);
    assert_eq!(clone.what, "cloning tree-sitter/tree-sitter-json");
}
