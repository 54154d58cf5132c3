//! Live config reload: notices changes to `config.toml` and `keybinds.toml`
//! and says when a settled burst is ready to apply.
//!
//! Three signals feed one [`ConfigWatch`]: the editor saving a watched file
//! itself, file-system events, and a fingerprint check when the window
//! regains focus. Every signal only marks a file dirty and pokes a shared
//! debounce; [`ConfigWatch::settled_with`] alone decides what reloads, at
//! most once per burst.
use vstd::prelude::*;
use vstd::string::StringExecFns;
use crate::debounce::{Debounce, DebounceModel};
use crate::disk::DiskStamp;
use crate::paths::{file_name_of, path_file_name};

verus! {

broadcast use vstd::string::group_string_axioms;

/// How long the files must sit quiet, in nanoseconds, before a reload applies.
pub const RELOAD_DEBOUNCE: u64 = 300_000_000;

/// Granularity of the settle check, in nanoseconds.
pub const SETTLE_TICK: u64 = 100_000_000;

/// The two watched config files.
#[derive(Debug, Clone, Copy, PartialEq, Eq, Structural)]
pub enum WatchedFile {
    Config,
    Keybinds,
}

/// The file name of a watched file.
pub open spec fn watched_name(file: WatchedFile) -> Seq<char> {
    match file {
        WatchedFile::Config => "config.toml"@,
        WatchedFile::Keybinds => "keybinds.toml"@,
    }
}

impl WatchedFile {
    /// The watched file's name.
    pub fn name(self) -> (name: &'static str)
        ensures
            name@ == watched_name(self),
    {
        proof {
            reveal_strlit("config.toml");
            reveal_strlit("keybinds.toml");
        }
        match self {
            WatchedFile::Config => "config.toml",
            WatchedFile::Keybinds => "keybinds.toml",
        }
    }
}

/// Which watched file a path spelled `path` is, by file name alone.
pub open spec fn classify_spec(path: Seq<char>) -> Option<WatchedFile> {
    match path_file_name(path) {
        Some(name) => if name == "config.toml"@ {
            Some(WatchedFile::Config)
        } else if name == "keybinds.toml"@ {
            Some(WatchedFile::Keybinds)
        } else {
            None
        },
        None => None,
    }
}

/// Which watched file `path` is, by file name alone: enough for watcher
/// events, which are already scoped to the candidate directories.
pub fn classify(path: &str) -> (file: Option<WatchedFile>)
    ensures
        file == classify_spec(path@),
{
    let name = match file_name_of(path) {
        Some(name) => name,
        None => return None,
    };
    let config = String::from_str("config.toml");
    let keybinds = String::from_str("keybinds.toml");
    if name == config {
        Some(WatchedFile::Config)
    } else if name == keybinds {
        Some(WatchedFile::Keybinds)
    } else {
        None
    }
}

/// On-disk identity of a watched file: which candidate path is effective,
/// and its stamp.
#[derive(Debug, Clone)]
pub struct Fingerprint {
    pub path: String,
    pub stamp: DiskStamp,
}

/// The abstract value of a fingerprint.
pub open spec fn fingerprint_view(f: Option<Fingerprint>) -> Option<(Seq<char>, DiskStamp)> {
    match f {
        Some(f) => Some((f.path@, f.stamp)),
        None => None,
    }
}

/// Whether two observations are the same.
fn same_fingerprint(a: &Option<Fingerprint>, b: &Option<Fingerprint>) -> (same: bool)
    ensures
        same == (fingerprint_view(*a) == fingerprint_view(*b)),
{
    match (a, b) {
        (Some(x), Some(y)) => x.path == y.path && x.stamp.mtime == y.stamp.mtime && x.stamp.len == y.stamp.len,
        (None, None) => true,
        _ => false,
    }
}

/// What is known of one watched file: its last observed fingerprint, and
/// whether it waits to be reloaded.
pub struct FileState {
    pub fingerprint: Option<Fingerprint>,
    pub dirty: bool,
}

/// The abstract state of one watched file.
pub struct FileModel {
    pub fingerprint: Option<(Seq<char>, DiskStamp)>,
    pub dirty: bool,
}

impl View for FileState {
    type V = FileModel;

    open spec fn view(&self) -> FileModel {
        FileModel { fingerprint: fingerprint_view(self.fingerprint), dirty: self.dirty }
    }
}

impl FileState {
    /// Records `current` and reports whether the file moved: appeared,
    /// disappeared, or changed in place.
    pub fn observe(&mut self, current: Option<Fingerprint>) -> (moved: bool)
        ensures
            moved == (old(self)@.fingerprint != fingerprint_view(current)),
            final(self)@ == (FileModel { fingerprint: fingerprint_view(current), dirty: old(self)@.dirty }),
    {
        let moved = !same_fingerprint(&self.fingerprint, &current);
        self.fingerprint = current;
        moved
    }
}

/// The abstract state of a [`ConfigWatch`].
pub struct ConfigWatchModel {
    pub debounce: DebounceModel,
    pub config: FileModel,
    pub keybinds: FileModel,
}

impl ConfigWatchModel {
    /// The watch waits `RELOAD_DEBOUNCE` for a burst to settle, as every
    /// watch does.
    pub open spec fn wf(self) -> bool {
        self.debounce.window == RELOAD_DEBOUNCE as nat
    }

    /// The state after `file` is marked dirty at `now`: the file waits to be
    /// reloaded, and the shared debounce is poked.
    pub open spec fn marked(self, file: WatchedFile, now: u64) -> ConfigWatchModel {
        ConfigWatchModel {
            debounce: self.debounce.poked(now),
            config: if file == WatchedFile::Config {
                FileModel { dirty: true, ..self.config }
            } else {
                self.config
            },
            keybinds: if file == WatchedFile::Keybinds {
                FileModel { dirty: true, ..self.keybinds }
            } else {
                self.keybinds
            },
        }
    }

    /// The state after a focus check that observed `config` and `keybinds`:
    /// both observations recorded, and each file that moved marked dirty.
    pub open spec fn checked(
        self,
        config: Option<(Seq<char>, DiskStamp)>,
        keybinds: Option<(Seq<char>, DiskStamp)>,
        now: u64,
    ) -> ConfigWatchModel {
        let observed = ConfigWatchModel {
            debounce: self.debounce,
            config: FileModel { fingerprint: config, dirty: self.config.dirty },
            keybinds: FileModel { fingerprint: keybinds, dirty: self.keybinds.dirty },
        };
        let after_config = if self.config.fingerprint != config {
            observed.marked(WatchedFile::Config, now)
        } else {
            observed
        };
        if self.keybinds.fingerprint != keybinds {
            after_config.marked(WatchedFile::Keybinds, now)
        } else {
            after_config
        }
    }

    /// The files a settle check at `now` reloads: none unless the burst
    /// settled, else each dirty file, config first.
    pub open spec fn settled_files(self, now: u64) -> Seq<WatchedFile> {
        if !self.debounce.settled_at(now) {
            Seq::empty()
        } else {
            let first = if self.config.dirty { seq![WatchedFile::Config] } else { Seq::empty() };
            if self.keybinds.dirty { first.push(WatchedFile::Keybinds) } else { first }
        }
    }

    /// The state after a settle check at `now` that observed `config` and
    /// `keybinds`: unchanged unless the burst settled; if it did, the burst
    /// is consumed, the observations recorded and all dirt cleared.
    pub open spec fn after_settle(
        self,
        config: Option<(Seq<char>, DiskStamp)>,
        keybinds: Option<(Seq<char>, DiskStamp)>,
        now: u64,
    ) -> ConfigWatchModel {
        if !self.debounce.settled_at(now) {
            self
        } else {
            ConfigWatchModel {
                debounce: self.debounce.after_settle_check(now),
                config: FileModel { fingerprint: config, dirty: false },
                keybinds: FileModel { fingerprint: keybinds, dirty: false },
            }
        }
    }
}

/// Decides when edits to the config files should be reloaded.
pub struct ConfigWatch {
    debounce: Debounce,
    config: FileState,
    keybinds: FileState,
}

impl View for ConfigWatch {
    type V = ConfigWatchModel;

    closed spec fn view(&self) -> ConfigWatchModel {
        ConfigWatchModel { debounce: self.debounce@, config: self.config@, keybinds: self.keybinds@ }
    }
}

impl ConfigWatch {
    /// Every watch waits `RELOAD_DEBOUNCE` for a burst to settle.
    #[verifier::type_invariant]
    spec fn waits_the_reload_debounce(self) -> bool {
        self.debounce@.window == RELOAD_DEBOUNCE as nat
    }

    /// A watch seeded with what is on disk now, so boot state never reads as
    /// a change: nothing dirty, nothing pending.
    pub fn seeded(config: Option<Fingerprint>, keybinds: Option<Fingerprint>) -> (watch: Self)
        ensures
            watch@ == (ConfigWatchModel {
                debounce: DebounceModel { window: RELOAD_DEBOUNCE as nat, last_poke: None },
                config: FileModel { fingerprint: fingerprint_view(config), dirty: false },
                keybinds: FileModel { fingerprint: fingerprint_view(keybinds), dirty: false },
            }),
    {
        ConfigWatch {
            debounce: Debounce::new(RELOAD_DEBOUNCE),
            config: FileState { fingerprint: config, dirty: false },
            keybinds: FileState { fingerprint: keybinds, dirty: false },
        }
    }

    /// A watch from the two files' fingerprints as they stand at startup
    /// (the caller stats them); the same as [`ConfigWatch::seeded`].
    pub fn new(config: Option<Fingerprint>, keybinds: Option<Fingerprint>) -> (watch: Self)
        ensures
            watch@ == (ConfigWatchModel {
                debounce: DebounceModel { window: RELOAD_DEBOUNCE as nat, last_poke: None },
                config: FileModel { fingerprint: fingerprint_view(config), dirty: false },
                keybinds: FileModel { fingerprint: fingerprint_view(keybinds), dirty: false },
            }),
    {
        Self::seeded(config, keybinds)
    }

    /// The editor saved `path` at `now`. `same_as_effective` says whether the
    /// saved file and the effective file of the kind `path` names are one
    /// file (the caller compares their canonical paths). A save to the
    /// effective file is dirty by definition, whatever the fingerprint says.
    pub fn note_saved(&mut self, path: &str, same_as_effective: bool, now: u64)
        ensures
            final(self)@.wf(),
            match classify_spec(path@) {
                Some(file) => if same_as_effective {
                    final(self)@ == old(self)@.marked(file, now)
                } else {
                    final(self)@ == old(self)@
                },
                None => final(self)@ == old(self)@,
            },
    {
        proof {
            use_type_invariant(&*self);
        }
        if let Some(file) = classify(path) {
            if same_as_effective {
                self.mark_dirty(file, now);
            }
        }
    }

    /// A file-system event touched `file` at `now`.
    pub fn note_event(&mut self, file: WatchedFile, now: u64)
        ensures
            final(self)@.wf(),
            final(self)@ == old(self)@.marked(file, now),
    {
        proof {
            use_type_invariant(&*self);
        }
        self.mark_dirty(file, now);
    }

    /// Focus-gain check against the two files' current fingerprints: dirties
    /// whichever moved since last observed.
    pub fn check_with(&mut self, config: Option<Fingerprint>, keybinds: Option<Fingerprint>, now: u64)
        ensures
            final(self)@.wf(),
            final(self)@ == old(self)@.checked(fingerprint_view(config), fingerprint_view(keybinds), now),
    {
        proof {
            use_type_invariant(&*self);
        }
        let config_moved = !same_fingerprint(&self.config.fingerprint, &config);
        self.config.fingerprint = config;
        if config_moved {
            self.mark_dirty(WatchedFile::Config, now);
        }
        let keybinds_moved = !same_fingerprint(&self.keybinds.fingerprint, &keybinds);
        self.keybinds.fingerprint = keybinds;
        if keybinds_moved {
            self.mark_dirty(WatchedFile::Keybinds, now);
        }
    }

    fn mark_dirty(&mut self, file: WatchedFile, now: u64)
        ensures
            final(self)@.wf(),
            final(self)@ == old(self)@.marked(file, now),
    {
        proof {
            use_type_invariant(&*self);
        }
        match file {
            WatchedFile::Config => self.config.dirty = true,
            WatchedFile::Keybinds => self.keybinds.dirty = true,
        }
        self.debounce.poke(now);
    }

    /// Whether a reload burst is waiting.
    pub fn pending(&self) -> (waiting: bool)
        ensures
            self@.wf(),
            waiting == (self@.debounce.last_poke is Some),
    {
        proof {
            use_type_invariant(self);
        }
        self.debounce.pending()
    }

    /// The files to reload at `now`, given their current fingerprints:
    /// non-empty at most once per settled burst. Dirt is cleared even if the
    /// caller's reload then fails, so a broken file surfaces one error
    /// rather than a retry loop.
    pub fn settled_with(&mut self, config: Option<Fingerprint>, keybinds: Option<Fingerprint>, now: u64) -> (files: Vec<WatchedFile>)
        ensures
            final(self)@.wf(),
            files@ == old(self)@.settled_files(now),
            final(self)@ == old(self)@.after_settle(fingerprint_view(config), fingerprint_view(keybinds), now),
    {
        proof {
            use_type_invariant(&*self);
        }
        if !self.debounce.fire_if_settled(now) {
            return Vec::new();
        }
        self.config.fingerprint = config;
        self.keybinds.fingerprint = keybinds;
        let mut files: Vec<WatchedFile> = Vec::new();
        if self.config.dirty {
            files.push(WatchedFile::Config);
        }
        self.config.dirty = false;
        if self.keybinds.dirty {
            files.push(WatchedFile::Keybinds);
        }
        self.keybinds.dirty = false;
        files
    }
}

/// A settled reload is reported once: a second settle check, with no
/// signal in between, reloads nothing.
pub proof fn lemma_reload_reported_once(
    w: ConfigWatchModel,
    config: Option<(Seq<char>, DiskStamp)>,
    keybinds: Option<(Seq<char>, DiskStamp)>,
    now: u64,
    later: u64,
)
    requires
        w.debounce.settled_at(now),
    ensures
        w.after_settle(config, keybinds, now).settled_files(later) == Seq::<WatchedFile>::empty(),
        !w.after_settle(config, keybinds, now).config.dirty,
        !w.after_settle(config, keybinds, now).keybinds.dirty,
{
}

/// Marking a file dirty always makes a burst pending, and the file is
/// among those the settled burst reloads.
pub proof fn lemma_marked_file_is_reloaded(
    w: ConfigWatchModel,
    file: WatchedFile,
    now: u64,
    later: u64,
)
    requires
        w.debounce.window < u64::MAX,
        later >= now,
        later - now > w.debounce.window,
    ensures
        w.marked(file, now).debounce.last_poke is Some,
        w.marked(file, now).settled_files(later).contains(file),
{
    let m = w.marked(file, now);
    let files = m.settled_files(later);
    if file == WatchedFile::Config {
        assert(files[0] == WatchedFile::Config);
    } else {
        assert(files[files.len() - 1] == WatchedFile::Keybinds);
    }
}

/// Every change a watch goes through keeps its quiet window: a watch made
/// by [`ConfigWatch::seeded`] or [`ConfigWatch::new`] waits
/// `RELOAD_DEBOUNCE` for good.
pub proof fn lemma_window_is_kept(
    w: ConfigWatchModel,
    file: WatchedFile,
    config: Option<(Seq<char>, DiskStamp)>,
    keybinds: Option<(Seq<char>, DiskStamp)>,
    now: u64,
)
    ensures
        w.marked(file, now).debounce.window == w.debounce.window,
        w.checked(config, keybinds, now).debounce.window == w.debounce.window,
        w.after_settle(config, keybinds, now).debounce.window == w.debounce.window,
{
}

/// A change to `file` at `now`, with no signal after it, is reloaded by a
/// settle check at `later` exactly when more than `RELOAD_DEBOUNCE` has
/// passed, and then once; a check before that reloads nothing. Stated for
/// every watch: each [`ConfigWatch`] method says its watch is `wf`.
pub proof fn lemma_change_settles_once_after_the_window(
    w: ConfigWatchModel,
    file: WatchedFile,
    now: u64,
    later: u64,
)
    requires
        w.wf(),
        later >= now,
    ensures
        w.marked(file, now).debounce.last_poke is Some,
        w.marked(file, now).settled_files(later).contains(file) == (later - now > RELOAD_DEBOUNCE),
        w.marked(file, now).settled_files(later).no_duplicates(),
        later - now <= RELOAD_DEBOUNCE ==> w.marked(file, now).settled_files(later).len() == 0,
{
    let m = w.marked(file, now);
    let files = m.settled_files(later);
    if later - now > RELOAD_DEBOUNCE {
        if file == WatchedFile::Config {
            assert(files[0] == WatchedFile::Config);
        } else {
            assert(files[files.len() - 1] == WatchedFile::Keybinds);
        }
    }
    assert(files.no_duplicates()) by {
        if files.len() == 2 {
            assert(files[0] == WatchedFile::Config && files[1] == WatchedFile::Keybinds);
        }
    }
}

/// A focus check records both fingerprints it observed. A file whose
/// fingerprint moved (appeared, vanished or changed) is marked to be
/// reloaded and the burst is poked at `now`, so that, with no signal
/// after it, a settle check more than `RELOAD_DEBOUNCE` later reloads that
/// file; a file whose fingerprint did not move keeps the mark it had. The
/// two files are treated alike.
pub proof fn lemma_moved_file_is_reloaded(
    w: ConfigWatchModel,
    config: Option<(Seq<char>, DiskStamp)>,
    keybinds: Option<(Seq<char>, DiskStamp)>,
    now: u64,
    later: u64,
)
    requires
        w.wf(),
        later >= now,
    ensures
        w.checked(config, keybinds, now).config.fingerprint == config,
        w.checked(config, keybinds, now).keybinds.fingerprint == keybinds,
        w.checked(config, keybinds, now).wf(),
        w.config.fingerprint != config ==> w.checked(config, keybinds, now).config.dirty
            && w.checked(config, keybinds, now).debounce.last_poke == Some(now),
        w.keybinds.fingerprint != keybinds ==> w.checked(config, keybinds, now).keybinds.dirty
            && w.checked(config, keybinds, now).debounce.last_poke == Some(now),
        w.config.fingerprint == config ==> w.checked(config, keybinds, now).config.dirty == w.config.dirty,
        w.keybinds.fingerprint == keybinds ==> w.checked(config, keybinds, now).keybinds.dirty == w.keybinds.dirty,
        w.config.fingerprint == config && w.keybinds.fingerprint == keybinds
            ==> w.checked(config, keybinds, now).debounce == w.debounce,
        w.config.fingerprint != config && later - now > RELOAD_DEBOUNCE
            ==> w.checked(config, keybinds, now).settled_files(later).contains(WatchedFile::Config),
        w.keybinds.fingerprint != keybinds && later - now > RELOAD_DEBOUNCE
            ==> w.checked(config, keybinds, now).settled_files(later).contains(WatchedFile::Keybinds),
{
    let c = w.checked(config, keybinds, now);
    if later - now > RELOAD_DEBOUNCE {
        let files = c.settled_files(later);
        if w.config.fingerprint != config {
            assert(files[0] == WatchedFile::Config);
        }
        if w.keybinds.fingerprint != keybinds {
            assert(files[files.len() - 1] == WatchedFile::Keybinds);
        }
    }
}

/// A focus check that sees both files unchanged starts no burst.
pub proof fn lemma_unchanged_check_is_quiet(w: ConfigWatchModel, now: u64)
    ensures
        w.checked(w.config.fingerprint, w.keybinds.fingerprint, now) == w,
{
}

} // verus!
