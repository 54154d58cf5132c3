//! What the command line asks for.
use vstd::prelude::*;
use vstd::string::StringExecFns;
use crate::paths::{file_name_of, path_file_name, same_text};

verus! {

broadcast use vstd::string::group_string_axioms;

/// What the command line asked for.
#[derive(Debug, PartialEq, Eq)]
pub enum Invocation {
    Help,
    Version,
    /// Files to open at startup, in the order they were named.
    Open(Vec<String>),
}

/// The abstract value of an invocation.
pub enum InvocationModel {
    Help,
    Version,
    Open(Seq<Seq<char>>),
}

/// The abstract value of an [`Invocation`].
pub open spec fn invocation_view(i: Invocation) -> InvocationModel {
    match i {
        Invocation::Help => InvocationModel::Help,
        Invocation::Version => InvocationModel::Version,
        Invocation::Open(paths) => InvocationModel::Open(paths@.map_values(|p: String| p@)),
    }
}

/// Whether an argument asks for help.
pub open spec fn is_help(arg: Seq<char>) -> bool {
    arg == "--help"@ || arg == "-h"@
}

/// Whether an argument asks for the version.
pub open spec fn is_version(arg: Seq<char>) -> bool {
    arg == "--version"@ || arg == "-V"@
}

/// What `args` ask for: the first `--help`/`-h` or `--version`/`-V`
/// wherever it appears wins; with neither, every argument is a path, in
/// order.
pub open spec fn parse_spec(args: Seq<Seq<char>>) -> InvocationModel
    decreases args.len(),
{
    if args.len() == 0 {
        InvocationModel::Open(Seq::empty())
    } else if is_help(args[0]) {
        InvocationModel::Help
    } else if is_version(args[0]) {
        InvocationModel::Version
    } else {
        match parse_spec(args.drop_first()) {
            InvocationModel::Open(paths) => InvocationModel::Open(seq![args[0]] + paths),
            other => other,
        }
    }
}

/// Help and version win wherever they appear: with either flag among the
/// arguments nothing is opened, and the first flag decides which answer is
/// given; with neither, every argument is a path, in order.
pub proof fn lemma_flags_win(args: Seq<Seq<char>>, first: int)
    requires
        0 <= first < args.len(),
        is_help(args[first]) || is_version(args[first]),
        forall|j: int| 0 <= j < first ==> !is_help(#[trigger] args[j]) && !is_version(args[j]),
    ensures
        is_help(args[first]) ==> parse_spec(args) == InvocationModel::Help,
        !is_help(args[first]) ==> parse_spec(args) == InvocationModel::Version,
    decreases first,
{
    if first > 0 {
        assert(!is_help(args[0]) && !is_version(args[0]));
        assert forall|j: int| 0 <= j < first - 1 implies
            !is_help(#[trigger] args.drop_first()[j]) && !is_version(args.drop_first()[j]) by {
            assert(args.drop_first()[j] == args[j + 1]);
        }
        lemma_flags_win(args.drop_first(), first - 1);
    }
}

/// Without either flag, every argument is a path to open, in order.
pub proof fn lemma_plain_arguments_are_paths(args: Seq<Seq<char>>)
    requires
        forall|j: int| 0 <= j < args.len() ==> !is_help(#[trigger] args[j]) && !is_version(args[j]),
    ensures
        parse_spec(args) == InvocationModel::Open(args),
    decreases args.len(),
{
    if args.len() > 0 {
        assert forall|j: int| 0 <= j < args.len() - 1 implies
            !is_help(#[trigger] args.drop_first()[j]) && !is_version(args.drop_first()[j]) by {
            assert(args.drop_first()[j] == args[j + 1]);
        }
        lemma_plain_arguments_are_paths(args.drop_first());
        assert(!is_help(args[0]) && !is_version(args[0]));
        assert(seq![args[0]] + args.drop_first() =~= args);
    } else {
        assert(args =~= Seq::<Seq<char>>::empty());
    }
}

/// `paths` put in front of the paths of `rest`, if it opens paths.
pub open spec fn prepend_paths(paths: Seq<Seq<char>>, rest: InvocationModel) -> InvocationModel {
    match rest {
        InvocationModel::Open(more) => InvocationModel::Open(paths + more),
        other => other,
    }
}

/// Everything that isn't `--help`/`--version` is a path: deliberately not a
/// flag parser.
#[verifier::loop_isolation(false)]
pub fn parse_args(args: &[String]) -> (invocation: Invocation)
    ensures
        invocation_view(invocation) == parse_spec(args@.map_values(|a: String| a@)),
{
    proof {
        reveal_strlit("--help");
        reveal_strlit("-h");
        reveal_strlit("--version");
        reveal_strlit("-V");
    }
    let ghost all = args@.map_values(|a: String| a@);
    let mut paths: Vec<String> = Vec::new();
    let mut i: usize = 0;
    assert(all.skip(0) =~= all);
    assert(prepend_paths(Seq::empty(), parse_spec(all)) == parse_spec(all)) by {
        match parse_spec(all) {
            InvocationModel::Open(more) => {
                assert(Seq::<Seq<char>>::empty() + more =~= more);
            },
            _ => {},
        }
    }
    while i < args.len()
        invariant
            0 <= i <= args@.len(),
            all == args@.map_values(|a: String| a@),
            parse_spec(all) == prepend_paths(paths@.map_values(|p: String| p@), parse_spec(all.skip(i as int))),
        decreases args@.len() - i,
    {
        let arg = args[i].as_str();
        let ghost rest = all.skip(i as int);
        assert(rest[0] == arg@);
        assert(rest.drop_first() =~= all.skip(i + 1));
        if same_text(arg, "--help") || same_text(arg, "-h") {
            return Invocation::Help;
        }
        if same_text(arg, "--version") || same_text(arg, "-V") {
            return Invocation::Version;
        }
        let ghost before = paths@.map_values(|p: String| p@);
        paths.push(String::from_str(arg));
        proof {
            assert(paths@.map_values(|p: String| p@) =~= before.push(arg@));
            match parse_spec(all.skip(i + 1)) {
                InvocationModel::Open(more) => {
                    assert(before + (seq![arg@] + more) =~= before.push(arg@) + more);
                },
                _ => {},
            }
        }
        i = i + 1;
    }
    assert(all.skip(args@.len() as int) =~= Seq::<Seq<char>>::empty());
    assert(paths@.map_values(|p: String| p@) + Seq::<Seq<char>>::empty() =~= paths@.map_values(|p: String| p@));
    Invocation::Open(paths)
}

/// The name the program was invoked as: the file name of `argv0`, or
/// "jumppad" when it is missing or has none.
pub open spec fn program_name_spec(argv0: Option<Seq<char>>) -> Seq<char> {
    match argv0 {
        Some(a) => match path_file_name(a) {
            Some(name) => name,
            None => "jumppad"@,
        },
        None => "jumppad"@,
    }
}

/// The name the program was invoked as.
pub fn program_name(argv0: Option<&str>) -> (name: String)
    ensures
        name@ == program_name_spec(match argv0 { Some(a) => Some(a@), None => None }),
{
    proof {
        reveal_strlit("jumppad");
    }
    match argv0 {
        Some(a) => match file_name_of(a) {
            Some(name) => name,
            None => String::from_str("jumppad"),
        },
        None => String::from_str("jumppad"),
    }
}

/// The answer to `--help`, for a program invoked as `program`.
pub open spec fn help_text_spec(program: Seq<char>) -> Seq<char> {
    program + " - a lightweight plaintext editor\n\nUsage: "@ + program
        + " [FILE]...\n\nOpens each FILE in its own tab. A FILE that doesn't exist yet opens as an\nempty tab saved to that path on the first save.\n\nOptions:\n  -h, --help       Print this help\n  -V, --version    Print the version\n\nEnvironment:\n  JUMPPAD_DEBUG=1  Open a terminal and log to it"@
}

/// The answer to `--help`.
pub fn help_text(program: &str) -> (text: String)
    ensures
        text@ == help_text_spec(program@),
{
    let mut text = String::from_str(program);
    text.append(" - a lightweight plaintext editor\n\nUsage: ");
    text.append(program);
    text.append(" [FILE]...\n\nOpens each FILE in its own tab. A FILE that doesn't exist yet opens as an\nempty tab saved to that path on the first save.\n\nOptions:\n  -h, --help       Print this help\n  -V, --version    Print the version\n\nEnvironment:\n  JUMPPAD_DEBUG=1  Open a terminal and log to it");
    text
}

/// The answer to `--version`: the program's name and its version.
pub fn version_text(program: &str, version: &str) -> (text: String)
    ensures
        text@ == program@ + " "@ + version@,
{
    let mut text = String::from_str(program);
    text.append(" ");
    text.append(version);
    text
}

} // verus!
