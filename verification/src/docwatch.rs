//! Notices when an open tab's file changes on disk, and says when a settled
//! burst of such changes is ready to act on.
use vstd::prelude::*;
use vstd::string::StringExecFns;
use crate::debounce::{Debounce, DebounceModel};
use crate::paths::{parent_of, path_parent, same_text};

verus! {

broadcast use vstd::string::group_string_axioms;

/// How long the files must sit quiet, in nanoseconds, before a sweep: long
/// enough to swallow an editor's atomic-save dance.
pub const CHANGE_DEBOUNCE: u64 = 300_000_000;

/// Granularity of the settle check, in nanoseconds.
pub const SETTLE_TICK: u64 = 100_000_000;

/// The debounce between "something happened out there" and "go look".
pub struct DocumentWatch {
    debounce: Debounce,
}

impl View for DocumentWatch {
    type V = DebounceModel;

    closed spec fn view(&self) -> DebounceModel {
        self.debounce@
    }
}

impl DocumentWatch {
    /// A watch with no burst pending and a `CHANGE_DEBOUNCE` window.
    pub fn new() -> (watch: Self)
        ensures
            watch@ == (DebounceModel { window: CHANGE_DEBOUNCE as nat, last_poke: None }),
    {
        DocumentWatch { debounce: Debounce::new(CHANGE_DEBOUNCE) }
    }

    /// A file-system event touched a watched directory at `now`.
    pub fn note_event(&mut self, now: u64)
        ensures
            final(self)@ == old(self)@.poked(now),
    {
        self.debounce.poke(now);
    }

    /// Whether a change burst is waiting.
    pub fn pending(&self) -> (waiting: bool)
        ensures
            waiting == (self@.last_poke is Some),
    {
        self.debounce.pending()
    }

    /// True once per settled burst: time to sweep the open tabs.
    pub fn settled(&mut self, now: u64) -> (sweep: bool)
        ensures
            sweep == old(self)@.settled_at(now),
            final(self)@ == old(self)@.after_settle_check(now),
    {
        self.debounce.fire_if_settled(now)
    }
}

/// The directory watched for `path`: its parent, or the current directory
/// `"."` when it has none or an empty one (a bare relative file name).
pub open spec fn watched_dir(path: Seq<char>) -> Seq<char> {
    match path_parent(path) {
        Some(parent) => if parent.len() > 0 { parent } else { "."@ },
        None => "."@,
    }
}

/// The directory to watch for one path.
fn watched_dir_of(path: &str) -> (dir: String)
    ensures
        dir@ == watched_dir(path@),
{
    proof {
        reveal_strlit(".");
    }
    match parent_of(path) {
        Some(parent) => {
            if parent.as_str().is_empty() {
                String::from_str(".")
            } else {
                parent
            }
        },
        None => String::from_str("."),
    }
}

/// The texts of a list of strings.
pub open spec fn texts(strings: Seq<String>) -> Seq<Seq<char>> {
    strings.map_values(|s: String| s@)
}

/// The directory to watch for each path, in order.
pub open spec fn watched_dir_list(paths: Seq<String>) -> Seq<Seq<char>> {
    paths.map_values(|p: String| watched_dir(p@))
}

/// Membership after a push.
pub proof fn lemma_push_contains<A>(s: Seq<A>, x: A, y: A)
    ensures
        s.push(x).contains(y) == (s.contains(y) || x == y),
{
    if s.contains(y) {
        let j = choose|j: int| 0 <= j < s.len() && s[j] == y;
        assert(s.push(x)[j] == y);
    }
    if x == y {
        assert(s.push(x)[s.len() as int] == y);
    }
    if s.push(x).contains(y) {
        let j = choose|j: int| 0 <= j < s.push(x).len() && s.push(x)[j] == y;
        if j < s.len() {
            assert(s[j] == y);
        }
    }
}

/// The set of a sequence after a push.
pub proof fn lemma_push_to_set<A>(s: Seq<A>, x: A)
    ensures
        s.push(x).to_set() =~= s.to_set().insert(x),
{
    assert forall|y: A| s.push(x).to_set().contains(y) == s.to_set().insert(x).contains(y) by {
        lemma_push_contains(s, x, y);
    }
}

/// The directories holding `paths`, each once, in the order of the paths
/// that first name them.
pub fn watched_dirs(paths: &[String]) -> (dirs: Vec<String>)
    ensures
        texts(dirs@).no_duplicates(),
        texts(dirs@).to_set() == watched_dir_list(paths@).to_set(),
{
    let ghost targets = watched_dir_list(paths@);
    let mut dirs: Vec<String> = Vec::new();
    let mut k: usize = 0;
    assert(texts(dirs@).to_set() =~= targets.take(0).to_set());
    while k < paths.len()
        invariant
            0 <= k <= paths@.len(),
            targets == watched_dir_list(paths@),
            texts(dirs@).no_duplicates(),
            texts(dirs@).to_set() == targets.take(k as int).to_set(),
        decreases paths@.len() - k,
    {
        let dir = watched_dir_of(paths[k].as_str());
        assert(dir@ == targets[k as int]);
        let mut seen = false;
        let mut i: usize = 0;
        while i < dirs.len()
            invariant
                0 <= i <= dirs@.len(),
                seen == texts(dirs@).take(i as int).contains(dir@),
            decreases dirs@.len() - i,
        {
            let same = same_text(dirs[i].as_str(), dir.as_str());
            proof {
                lemma_push_contains(texts(dirs@).take(i as int), dirs@[i as int]@, dir@);
                assert(texts(dirs@).take(i + 1) =~= texts(dirs@).take(i as int).push(dirs@[i as int]@));
            }
            seen = seen || same;
            i = i + 1;
        }
        assert(texts(dirs@).take(dirs@.len() as int) =~= texts(dirs@));
        let ghost before = texts(dirs@);
        assert(targets.take(k + 1) =~= targets.take(k as int).push(dir@));
        if !seen {
            dirs.push(dir);
            proof {
                assert(texts(dirs@) =~= before.push(targets[k as int]));
                lemma_push_to_set(before, dir@);
                lemma_push_to_set(targets.take(k as int), dir@);
                assert(texts(dirs@).to_set() =~= targets.take(k + 1).to_set());
            }
        } else {
            proof {
                lemma_push_to_set(targets.take(k as int), dir@);
            }
            assert(texts(dirs@).to_set() =~= targets.take(k + 1).to_set());
        }
        k = k + 1;
    }
    assert(targets.take(paths@.len() as int) =~= targets);
    dirs
}

} // verus!
