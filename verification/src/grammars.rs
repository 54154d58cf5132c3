//! The grammar build: which syntax grammars are built, from which
//! repositories, into which bundles, and the tool invocations that build
//! them. The build tool runs the invocations and copies the files.
use vstd::prelude::*;
use vstd::string::StringExecFns;
use crate::paths::{join_path, path_join};
use crate::text::{chars_of, push_char};

verus! {

broadcast use vstd::string::group_string_axioms;

/// One grammar to build: where its source comes from, and which bundle it
/// lands in.
#[derive(Debug, Clone)]
pub struct Grammar {
    /// The GitHub repository, as `owner/name`.
    pub repository: String,
    /// The subdirectory of the clone holding this grammar, for repositories
    /// carrying several; empty when the grammar is the repository root.
    pub subdirectory: String,
    /// The `syntaxes/<bundle>` directory it builds into, which is also the
    /// name injection queries resolve it by.
    pub bundle: String,
    /// Whether upstream ships an `injections.scm` naming the grammars this
    /// one embeds.
    pub injections: bool,
}

/// A repository whose root is the grammar.
pub fn whole(repository: &str, bundle: &str) -> (grammar: Grammar)
    ensures
        grammar.repository@ == repository@,
        grammar.subdirectory@ == Seq::<char>::empty(),
        grammar.bundle@ == bundle@,
        !grammar.injections,
{
    Grammar {
        repository: String::from_str(repository),
        subdirectory: String::new(),
        bundle: String::from_str(bundle),
        injections: false,
    }
}

/// One of several grammars sharing a repository.
pub fn part(repository: &str, subdirectory: &str, bundle: &str) -> (grammar: Grammar)
    ensures
        grammar.repository@ == repository@,
        grammar.subdirectory@ == subdirectory@,
        grammar.bundle@ == bundle@,
        !grammar.injections,
{
    Grammar {
        repository: String::from_str(repository),
        subdirectory: String::from_str(subdirectory),
        bundle: String::from_str(bundle),
        injections: false,
    }
}

impl Grammar {
    /// The same grammar, shipping its injection query.
    pub fn with_injections(self) -> (grammar: Grammar)
        ensures
            grammar.repository == self.repository,
            grammar.subdirectory == self.subdirectory,
            grammar.bundle == self.bundle,
            grammar.injections,
    {
        Grammar { injections: true, ..self }
    }
}

/// A grammar as plain values: repository, subdirectory, bundle, and whether
/// it ships injections.
pub open spec fn grammar_view(g: Grammar) -> (Seq<char>, Seq<char>, Seq<char>, bool) {
    (g.repository@, g.subdirectory@, g.bundle@, g.injections)
}

/// The grammars the build makes, in build order.
pub open spec fn grammar_table() -> Seq<(Seq<char>, Seq<char>, Seq<char>, bool)> {
    seq![
        ("ikatyang/tree-sitter-toml"@, ""@, "toml"@, false),
        ("tree-sitter/tree-sitter-json"@, ""@, "json"@, false),
        ("tree-sitter/tree-sitter-html"@, ""@, "html"@, false),
        ("tree-sitter-grammars/tree-sitter-yaml"@, ""@, "yaml"@, false),
        ("tree-sitter-grammars/tree-sitter-diff"@, ""@, "diff"@, false),
        ("tree-sitter-grammars/tree-sitter-make"@, ""@, "make"@, false),
        ("tree-sitter-grammars/tree-sitter-pem"@, ""@, "pem"@, false),
        ("tree-sitter-grammars/tree-sitter-xml"@, "xml"@, "xml"@, false),
        ("tree-sitter-grammars/tree-sitter-xml"@, "dtd"@, "dtd"@, false),
        ("tree-sitter-grammars/tree-sitter-csv"@, "csv"@, "csv"@, false),
        ("tree-sitter-grammars/tree-sitter-csv"@, "psv"@, "psv"@, false),
        ("tree-sitter-grammars/tree-sitter-csv"@, "tsv"@, "tsv"@, false),
        ("tree-sitter-grammars/tree-sitter-markdown"@, "tree-sitter-markdown"@, "markdown"@, true),
        ("tree-sitter-grammars/tree-sitter-markdown"@, "tree-sitter-markdown-inline"@, "markdown_inline"@, true),
    ]
}

/// Every grammar the build makes. Markdown needs company: its block
/// grammar leaves inline spans to `markdown_inline`, and both inject other
/// languages.
pub fn grammars() -> (all: Vec<Grammar>)
    ensures
        all@.map_values(|g: Grammar| grammar_view(g)) == grammar_table(),
{
    proof {
        reveal_strlit("");
    }
    let mut all: Vec<Grammar> = Vec::new();
    all.push(whole("ikatyang/tree-sitter-toml", "toml"));
    all.push(whole("tree-sitter/tree-sitter-json", "json"));
    all.push(whole("tree-sitter/tree-sitter-html", "html"));
    all.push(whole("tree-sitter-grammars/tree-sitter-yaml", "yaml"));
    all.push(whole("tree-sitter-grammars/tree-sitter-diff", "diff"));
    all.push(whole("tree-sitter-grammars/tree-sitter-make", "make"));
    all.push(whole("tree-sitter-grammars/tree-sitter-pem", "pem"));
    all.push(part("tree-sitter-grammars/tree-sitter-xml", "xml", "xml"));
    all.push(part("tree-sitter-grammars/tree-sitter-xml", "dtd", "dtd"));
    all.push(part("tree-sitter-grammars/tree-sitter-csv", "csv", "csv"));
    all.push(part("tree-sitter-grammars/tree-sitter-csv", "psv", "psv"));
    all.push(part("tree-sitter-grammars/tree-sitter-csv", "tsv", "tsv"));
    all.push(part("tree-sitter-grammars/tree-sitter-markdown", "tree-sitter-markdown", "markdown").with_injections());
    all.push(part("tree-sitter-grammars/tree-sitter-markdown", "tree-sitter-markdown-inline", "markdown_inline").with_injections());
    assert(grammar_view(all@[0]) == grammar_table()[0]);
    assert(grammar_view(all@[1]) == grammar_table()[1]);
    assert(grammar_view(all@[2]) == grammar_table()[2]);
    assert(grammar_view(all@[3]) == grammar_table()[3]);
    assert(grammar_view(all@[4]) == grammar_table()[4]);
    assert(grammar_view(all@[5]) == grammar_table()[5]);
    assert(grammar_view(all@[6]) == grammar_table()[6]);
    assert(grammar_view(all@[7]) == grammar_table()[7]);
    assert(grammar_view(all@[8]) == grammar_table()[8]);
    assert(grammar_view(all@[9]) == grammar_table()[9]);
    assert(grammar_view(all@[10]) == grammar_table()[10]);
    assert(grammar_view(all@[11]) == grammar_table()[11]);
    assert(grammar_view(all@[12]) == grammar_table()[12]);
    assert(grammar_view(all@[13]) == grammar_table()[13]);
    assert(all@.map_values(|g: Grammar| grammar_view(g)) =~= grammar_table());
    all
}

/// What follows the last `/` of `repository`, or all of it without one.
pub open spec fn checkout_name_spec(repository: Seq<char>) -> Seq<char>
    decreases repository.len(),
{
    if repository.len() == 0 {
        Seq::empty()
    } else if repository.last() == '/' {
        Seq::empty()
    } else {
        checkout_name_spec(repository.drop_last()).push(repository.last())
    }
}

/// The clone directory's name, taken from the repository's.
pub fn checkout_name(repository: &str) -> (name: String)
    ensures
        name@ == checkout_name_spec(repository@),
{
    let chars = chars_of(repository);
    let mut start: usize = 0;
    let mut i: usize = 0;
    while i < chars.len()
        invariant
            0 <= start <= i <= chars@.len(),
            checkout_name_spec(chars@.take(i as int)) == chars@.subrange(start as int, i as int),
        decreases chars@.len() - i,
    {
        assert(chars@.take(i + 1).drop_last() =~= chars@.take(i as int));
        if chars[i] == '/' {
            start = i + 1;
            assert(chars@.subrange(start as int, i + 1) =~= Seq::<char>::empty());
        } else {
            assert(chars@.subrange(start as int, i + 1) =~= chars@.subrange(start as int, i as int).push(chars@[i as int]));
        }
        i = i + 1;
    }
    assert(chars@.take(chars@.len() as int) =~= chars@);
    let mut name = String::new();
    let mut j: usize = start;
    while j < chars.len()
        invariant
            start <= j <= chars@.len(),
            name@ == chars@.subrange(start as int, j as int),
        decreases chars@.len() - j,
    {
        push_char(&mut name, chars[j]);
        assert(chars@.subrange(start as int, j + 1) =~= chars@.subrange(start as int, j as int).push(chars@[j as int]));
        j = j + 1;
    }
    name
}

/// Whether each grammar's repository is cloned when its turn comes: only
/// the first grammar from a repository clones it.
pub open spec fn clones_spec(repositories: Seq<Seq<char>>) -> Seq<bool> {
    Seq::new(repositories.len(), |i: int| forall|j: int| 0 <= j < i ==> #[trigger] repositories[j] != repositories[i])
}

/// Which grammars clone their repository, in build order.
pub fn clones(grammars: &Vec<Grammar>) -> (cloned: Vec<bool>)
    ensures
        cloned@ == clones_spec(grammars@.map_values(|g: Grammar| g.repository@)),
{
    let ghost repos = grammars@.map_values(|g: Grammar| g.repository@);
    let mut cloned: Vec<bool> = Vec::new();
    let mut i: usize = 0;
    while i < grammars.len()
        invariant
            0 <= i <= grammars@.len(),
            repos == grammars@.map_values(|g: Grammar| g.repository@),
            cloned@.len() == i,
            forall|k: int| 0 <= k < i ==> #[trigger] cloned@[k] == clones_spec(repos)[k],
        decreases grammars@.len() - i,
    {
        let mut first = true;
        let mut j: usize = 0;
        while j < i
            invariant
                0 <= j <= i < grammars@.len(),
                repos == grammars@.map_values(|g: Grammar| g.repository@),
                first == forall|m: int| 0 <= m < j ==> #[trigger] repos[m] != repos[i as int],
            decreases i - j,
        {
            assert(repos[j as int] == grammars@[j as int].repository@);
            assert(repos[i as int] == grammars@[i as int].repository@);
            if crate::paths::same_text(grammars[j].repository.as_str(), grammars[i].repository.as_str()) {
                first = false;
            }
            j = j + 1;
        }
        cloned.push(first);
        i = i + 1;
    }
    assert(cloned@ =~= clones_spec(repos));
    cloned
}

/// Where a grammar's source sits inside its repository's checkout: the
/// checkout itself, or the grammar's subdirectory of it.
pub fn source_dir(checkout: &str, subdirectory: &str) -> (dir: String)
    ensures
        subdirectory@.len() == 0 ==> dir@ == checkout@,
        subdirectory@.len() > 0 ==> dir@ == path_join(checkout@, subdirectory@),
{
    if subdirectory.is_empty() {
        String::from_str(checkout)
    } else {
        join_path(checkout, subdirectory)
    }
}

/// What the up-front check of the outside tools says, given whether
/// `git --version` and `npm --version` ran: nothing when both did, else the
/// tools missing from `PATH`, git first.
pub open spec fn tools_check_spec(git_runs: bool, node_runs: bool) -> Result<(), Seq<char>> {
    if git_runs && node_runs {
        Ok(())
    } else if !git_runs && !node_runs {
        Err("not found on PATH: git, Node (which provides npm and npx)"@)
    } else if !git_runs {
        Err("not found on PATH: git"@)
    } else {
        Err("not found on PATH: Node (which provides npm and npx)"@)
    }
}

/// The up-front check of the outside tools, from whether each answered.
pub fn tools_check(git_runs: bool, node_runs: bool) -> (checked: Result<(), String>)
    ensures
        match checked {
            Ok(()) => tools_check_spec(git_runs, node_runs) is Ok,
            Err(m) => tools_check_spec(git_runs, node_runs) == Err::<(), Seq<char>>(m@),
        },
{
    if git_runs && node_runs {
        Ok(())
    } else if !git_runs && !node_runs {
        Err(String::from_str("not found on PATH: git, Node (which provides npm and npx)"))
    } else if !git_runs {
        Err(String::from_str("not found on PATH: git"))
    } else {
        Err(String::from_str("not found on PATH: Node (which provides npm and npx)"))
    }
}

/// A program to run, its arguments, the directory it runs in (where it is
/// not the build's own), and what a failure of it is reported as.
#[derive(Debug)]
pub struct CommandLine {
    pub program: String,
    pub args: Vec<String>,
    pub current_dir: Option<String>,
    pub what: String,
}

/// How running a command ended.
#[derive(Debug)]
pub enum RunOutcome {
    /// It could not be started; the text describes why.
    NotStarted(String),
    /// It ran and exited; `status` describes the exit status.
    Exited { success: bool, status: String },
}

/// What a run of `command` comes to: success when it started and exited
/// successfully, otherwise an error naming the command's `what`, then why:
/// "<what>: <start error>" or "<what>: <exit status>".
pub fn run_result(command: &CommandLine, outcome: RunOutcome) -> (result: Result<(), String>)
    ensures
        match outcome {
            RunOutcome::NotStarted(e) => result matches Err(m) && m@ == command.what@ + ": "@ + e@,
            RunOutcome::Exited { success, status } => if success {
                result is Ok
            } else {
                result matches Err(m) && m@ == command.what@ + ": "@ + status@
            },
        },
{
    match outcome {
        RunOutcome::NotStarted(e) => {
            let mut m = String::from_str(command.what.as_str());
            m.append(": ");
            m.append(e.as_str());
            Err(m)
        },
        RunOutcome::Exited { success, status } => {
            if success {
                Ok(())
            } else {
                let mut m = String::from_str(command.what.as_str());
                m.append(": ");
                m.append(status.as_str());
                Err(m)
            }
        },
    }
}

/// A shallow, quiet clone of GitHub's `repository` into `into`, reported
/// as "cloning <repository>": `git clone --quiet --depth 1
/// https://github.com/<repository>.git <into>`.
pub fn clone_command(repository: &str, into: &str) -> (command: CommandLine)
    ensures
        command.program@ == "git"@,
        views(command.args@) == seq!["clone"@, "--quiet"@, "--depth"@, "1"@,
            "https://github.com/"@ + repository@ + ".git"@, into@],
        command.current_dir is None,
        command.what@ == "cloning "@ + repository@,
{
    let mut args: Vec<String> = Vec::new();
    assert(views(args@) =~= Seq::<Seq<char>>::empty());
    push_arg(&mut args, "clone");
    push_arg(&mut args, "--quiet");
    push_arg(&mut args, "--depth");
    push_arg(&mut args, "1");
    let mut url = String::from_str("https://github.com/");
    url.append(repository);
    url.append(".git");
    push_arg(&mut args, url.as_str());
    push_arg(&mut args, into);
    assert(views(args@) =~= seq!["clone"@, "--quiet"@, "--depth"@, "1"@,
        "https://github.com/"@ + repository@ + ".git"@, into@]);
    let mut what = String::from_str("cloning ");
    what.append(repository);
    CommandLine { program: String::from_str("git"), args, current_dir: None, what }
}

/// How npm's tools are started: straight on most platforms, through
/// `cmd /C` on Windows, where `npm` and `npx` are `.cmd` scripts a bare
/// program name does not find.
pub open spec fn npm_tool_spec(program: Seq<char>, windows: bool) -> (Seq<char>, Seq<Seq<char>>) {
    if windows { ("cmd"@, seq!["/C"@, program]) } else { (program, Seq::empty()) }
}

/// The views of a list of strings.
pub open spec fn views(strings: Seq<String>) -> Seq<Seq<char>> {
    strings.map_values(|s: String| s@)
}

/// Appends a copy of `text` to `args`.
fn push_arg(args: &mut Vec<String>, text: &str)
    ensures
        views(final(args)@) == views(old(args)@).push(text@),
{
    let ghost before = args@;
    args.push(String::from_str(text));
    assert(views(args@) =~= views(before).push(text@));
}

/// Starts an npm tool invocation.
fn npm_tool(program: &str, windows: bool, current_dir: &str, what: &str) -> (command: CommandLine)
    ensures
        (command.program@, views(command.args@)) == npm_tool_spec(program@, windows),
        command.current_dir matches Some(d) && d@ == current_dir@,
        command.what@ == what@,
{
    let mut args: Vec<String> = Vec::new();
    assert(views(args@) =~= Seq::<Seq<char>>::empty());
    if windows {
        push_arg(&mut args, "/C");
        push_arg(&mut args, program);
        proof {
            reveal_strlit("/C");
        }
        assert(views(args@) =~= seq!["/C"@, program@]);
        CommandLine {
            program: String::from_str("cmd"),
            args,
            current_dir: Some(String::from_str(current_dir)),
            what: String::from_str(what),
        }
    } else {
        CommandLine {
            program: String::from_str(program),
            args,
            current_dir: Some(String::from_str(current_dir)),
            what: String::from_str(what),
        }
    }
}

/// Installs the pinned `tree-sitter-cli`: `npm install`, run in
/// `syntaxes`, where the `package.json` naming the version lives.
pub fn install_tree_sitter(syntaxes: &str, windows: bool) -> (command: CommandLine)
    ensures
        command.program@ == npm_tool_spec("npm"@, windows).0,
        views(command.args@) == npm_tool_spec("npm"@, windows).1.push("install"@),
        command.current_dir matches Some(d) && d@ == syntaxes@,
        command.what@ == "npm install"@,
{
    let mut command = npm_tool("npm", windows, syntaxes, "npm install");
    push_arg(&mut command.args, "install");
    command
}

/// Compiles the grammar at `source` to wasm at `destination`: `npx --yes
/// tree-sitter-cli build --wasm -o <destination> <source>`, run in
/// `syntaxes` so npx takes the version `package.json` pins.
pub fn build_wasm(syntaxes: &str, source: &str, destination: &str, windows: bool) -> (command: CommandLine)
    ensures
        command.program@ == npm_tool_spec("npx"@, windows).0,
        views(command.args@) == npm_tool_spec("npx"@, windows).1
            + seq!["--yes"@, "tree-sitter-cli"@, "build"@, "--wasm"@, "-o"@, destination@, source@],
        command.current_dir matches Some(d) && d@ == syntaxes@,
        command.what@ == "building "@ + destination@,
{
    let mut what = String::from_str("building ");
    what.append(destination);
    let mut command = npm_tool("npx", windows, syntaxes, what.as_str());
    let ghost start = views(command.args@);
    push_arg(&mut command.args, "--yes");
    push_arg(&mut command.args, "tree-sitter-cli");
    push_arg(&mut command.args, "build");
    push_arg(&mut command.args, "--wasm");
    push_arg(&mut command.args, "-o");
    push_arg(&mut command.args, destination);
    push_arg(&mut command.args, source);
    assert(views(command.args@) =~= start
        + seq!["--yes"@, "tree-sitter-cli"@, "build"@, "--wasm"@, "-o"@, destination@, source@]);
    command
}

/// What the assembled output folder ended up holding, for the closing
/// report.
#[derive(Debug)]
pub struct Assembled {
    pub path: String,
    pub with_grammar: usize,
    pub configs_only: usize,
}

impl Assembled {
    /// An empty output folder at `path`.
    pub fn new(path: String) -> (assembled: Self)
        ensures
            assembled.path == path,
            assembled.with_grammar == 0,
            assembled.configs_only == 0,
    {
        Assembled { path, with_grammar: 0, configs_only: 0 }
    }

    /// Counts one copied bundle: with a grammar when its `syntax.wasm`
    /// came along, configuration only otherwise.
    pub fn count_bundle(&mut self, copied_wasm: bool)
        requires
            old(self).with_grammar < usize::MAX,
            old(self).configs_only < usize::MAX,
        ensures
            final(self).path == old(self).path,
            copied_wasm ==> final(self).with_grammar == old(self).with_grammar + 1
                && final(self).configs_only == old(self).configs_only,
            !copied_wasm ==> final(self).configs_only == old(self).configs_only + 1
                && final(self).with_grammar == old(self).with_grammar,
    {
        if copied_wasm {
            self.with_grammar = self.with_grammar + 1;
        } else {
            self.configs_only = self.configs_only + 1;
        }
    }
}

} // verus!
