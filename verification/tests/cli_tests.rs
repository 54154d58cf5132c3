use jumppad::cli::{parse_args, program_name, Invocation};

fn parse(args: &[&str]) -> Invocation {
    let owned: Vec<String> = args.iter().map(|a| a.to_string()).collect();
    parse_args(&owned)
}

fn paths(args: &[&str]) -> Vec<String> {
    match parse(args) {
        Invocation::Open(paths) => paths,
        other => panic!("expected paths, got {other:?}"),
    }
}

fn program_name_falls_back_when_argv0_is_missing_or_odd() {
    assert_eq!(program_name(Some("/usr/bin/jumppad")), "jumppad");
    assert_eq!(program_name(Some("jumppad-gpu")), "jumppad-gpu");
    assert_eq!(program_name(None), "jumppad");
}

#[test]
fn lib_no_arguments_opens_nothing() {
    assert!(paths(&[]).is_empty());
}

#[test]
fn lib_bare_arguments_are_paths_in_order() {
    assert_eq!(paths(&["a.txt", "../b.md"]), vec!["a.txt".to_string(), "../b.md".to_string()]);
}

#[test]
fn lib_an_unrecognized_flag_is_just_a_filename() {
    assert_eq!(paths(&["-x"]), vec!["-x".to_string()]);
}

#[test]
fn lib_tests_no_arguments_opens_nothing() {
    assert!(paths(&[]).is_empty());
}

#[test]
fn lib_tests_bare_arguments_are_paths_in_order() {
    assert_eq!(paths(&["a.txt", "../b.md"]), vec!["a.txt".to_string(), "../b.md".to_string()]);
}

#[test]
fn lib_tests_help_and_version_win_wherever_they_appear() {
    assert_eq!(parse(&["-h"]), Invocation::Help);
    assert_eq!(parse(&["--help"]), Invocation::Help);
    assert_eq!(parse(&["a.txt", "--help"]), Invocation::Help);
    assert_eq!(parse(&["-V"]), Invocation::Version);
    assert_eq!(parse(&["--version"]), Invocation::Version);
    assert_eq!(parse(&["a.txt", "--version"]), Invocation::Version);
}

#[test]
fn lib_tests_an_unrecognized_flag_is_just_a_filename() {
    assert_eq!(paths(&["-x"]), vec!["-x".to_string()]);
}

#[test]
fn lib_program_name_falls_back_when_argv0_is_missing_or_odd() {
    program_name_falls_back_when_argv0_is_missing_or_odd();
}

#[test]
fn lib_tests_program_name_falls_back_when_argv0_is_missing_or_odd() {
    program_name_falls_back_when_argv0_is_missing_or_odd();
}

#[test]
fn the_first_of_help_and_version_wins() {
    assert_eq!(parse(&["-V", "--help"]), Invocation::Version);
    assert_eq!(parse(&["--help", "-V"]), Invocation::Help);
    assert_eq!(parse(&["--HELP"]), Invocation::Open(vec!["--HELP".to_string()]));
}

#[test]
fn lib_help_and_version_win_wherever_they_appear() {
    lib_tests_help_and_version_win_wherever_they_appear();
}

#[test]
fn help_and_version_texts_name_the_program() {
    let help = jumppad::cli::help_text("jp");
    assert!(help.starts_with("jp - a lightweight plaintext editor\n\nUsage: jp [FILE]..."));
    assert!(help.ends_with("JUMPPAD_DEBUG=1  Open a terminal and log to it"));
    assert_eq!(jumppad::cli::version_text("jp", "0.1.0"), "jp 0.1.0");
}
