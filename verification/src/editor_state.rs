//! The editor's state outside its widgets, and what ties its parts together:
//! a save that the config watch must hear of, a reload that moves a find
//! palette's matches, a closed tab whose palette goes with it, and when the
//! session manifest needs writing again.
use vstd::prelude::*;
use vstd::string::StringExecFns;
use crate::disk::DiskStamp;
use crate::debounce::DebounceModel;
use crate::docwatch::{DocumentWatch, CHANGE_DEBOUNCE};
use crate::find_palettes::{searched, FindPalettes};
use crate::find_state::FindState;
use crate::reload::{classify_spec, ConfigWatch, ConfigWatchModel, WatchedFile};
use crate::tab::Tab;
use crate::workspace::{
    lemma_close_confirmed_acts, lemma_conflict_resolved_acts, CloseDecision, ConflictAction, ConflictDecision,
    SavePlan, find_id, flag_external, lemma_find_id, saved_with, update_first, Caret, CloseRequest, ModalKey,
    ModalKeyOutcome, ReadOutcome, ReloadApplied, SaveOutcome, SavedAction, Workspace,
};

verus! {

broadcast use vstd::string::group_string_axioms;

/// The tab strip, each tab's find palette, and the two watches.
pub struct EditorState {
    pub workspace: Workspace,
    pub palettes: FindPalettes,
    pub config_watch: ConfigWatch,
    pub document_watch: DocumentWatch,
}

/// Which timers the editor needs running now.
#[derive(Debug, Clone, Copy, PartialEq, Eq, Structural)]
pub struct TickSet {
    /// Some tab has edits its draft file does not hold yet.
    pub autosave: bool,
    /// A burst of config-file changes waits to settle.
    pub config_settle: bool,
    /// A burst of document changes waits to settle.
    pub document_settle: bool,
}

/// Whether some tab has edits its draft file does not hold yet.
pub open spec fn has_stale_draft(tabs: Seq<Tab>) -> bool {
    exists|i: int| 0 <= i < tabs.len() && #[trigger] tabs[i].dirty
        && tabs[i].draft_generation != tabs[i].flushed_generation
}

/// `new` is the config watch `old` after the editor saved `path` at `now`;
/// `same_as_effective` says whether that file is the effective one of its kind.
pub open spec fn noted_save(new: ConfigWatchModel, old: ConfigWatchModel, path: Seq<char>, same_as_effective: bool, now: u64) -> bool {
    match classify_spec(path) {
        Some(file) => if same_as_effective { new == old.marked(file, now) } else { new == old },
        None => new == old,
    }
}

/// `new` is the palettes `old` with tab `id`'s palette dropped.
pub open spec fn forgot(new: &FindPalettes, old: &FindPalettes, id: u64) -> bool {
    new.state(id) is None && new.others_same(old, id)
}

/// Whether closing a tab of `ws` moves the active index back: the active
/// tab is the last of several.
pub open spec fn moves_back(ws: &Workspace) -> bool {
    ws.tabs@.len() > 1 && ws.active + 1 >= ws.tabs@.len()
}

/// `new` is a palette state that was `before` and then searched `text`
/// again if it was showing.
pub open spec fn refreshed_state(new: Option<FindState>, before: Option<FindState>, text: Seq<char>) -> bool {
    match before {
        Some(o) => if o.open {
            new matches Some(s) && s.query@ == o.query@ && s.origin == o.origin && s.open && searched(s, text)
        } else {
            new == before
        },
        None => new is None,
    }
}

/// The palettes `new` after a close on strip `old_ws` left strip `new_ws`
/// and answered `closed`: a closed tab's palette is dropped, and when the
/// active index moved back (the active tab was the last of several) the
/// newly active tab's palette searches its text again.
pub open spec fn palettes_after_close(new: &FindPalettes, old: &FindPalettes, new_ws: &Workspace, old_ws: &Workspace, closed: Option<u64>) -> bool {
    match closed {
        None => *new == *old,
        Some(c) => if moves_back(old_ws) {
            let a = new_ws.tabs@[new_ws.active as int].id;
            let before = if a == c { None } else { old.state(a) };
            &&& forall|k: u64| k != a && k != c ==> #[trigger] new.state(k) == old.state(k)
            &&& c != a ==> new.state(c) is None
            &&& refreshed_state(new.state(a), before, new_ws.tabs@[new_ws.active as int].text@)
        } else {
            forgot(new, old, c)
        },
    }
}

/// The palettes `new` after the strip's active tab may have moved from
/// `old_ws` to `new_ws`: when it moved, the new active tab's palette searches
/// its text again.
pub open spec fn palettes_after_switch(new: &FindPalettes, old: &FindPalettes, new_ws: &Workspace, switched: bool) -> bool {
    if switched {
        new.refreshed(old, new_ws.tabs@[new_ws.active as int].id, new_ws.tabs@[new_ws.active as int].text@)
    } else {
        *new == *old
    }
}

/// One close's follow-up on the palettes, as [`EditorState::close_tab`]
/// makes it, given the strip `ws` the closes left: tab `c`'s palette goes,
/// and when that close made tab `act` active and it is still open, its
/// palette searches its text again.
pub open spec fn follow_up(new: FindPalettes, old: FindPalettes, ws: Workspace, c: u64, act: Option<u64>) -> bool {
    if act is Some && find_id(ws.tabs@, act->0) is Some {
        let x = act->0;
        &&& forall|k: u64| k != x && k != c ==> #[trigger] new.state(k) == old.state(k)
        &&& c != x ==> new.state(c) is None
        &&& refreshed_state(new.state(x), if x == c { None } else { old.state(x) },
            ws.tabs@[find_id(ws.tabs@, x)->0].text@)
    } else {
        forgot(&new, &old, c)
    }
}

/// `ps` runs the follow-ups of the closes `closed`, with what each made
/// active (`acts`), one at a time from `old` to `new`.
pub open spec fn follow_ups(ps: Seq<FindPalettes>, new: FindPalettes, old: FindPalettes, ws: Workspace,
    closed: Seq<u64>, acts: Seq<Option<u64>>) -> bool {
    &&& ps.len() == closed.len() + 1
    &&& acts.len() == closed.len()
    &&& ps[0] == old
    &&& ps.last() == new
    &&& forall|j: int| 0 <= j < closed.len() ==> follow_up(#[trigger] ps[j + 1], ps[j], ws, closed[j], acts[j])
}

/// The palettes `new` after the closes `closed` (each having made the tab
/// in `acts` active, if any) left strip `ws`: each close's follow-up in
/// turn, from `old`.
pub open spec fn palettes_after_closes(new: FindPalettes, old: FindPalettes, ws: Workspace, closed: Seq<u64>,
    acts: Seq<Option<u64>>) -> bool {
    exists|ps: Seq<FindPalettes>| #[trigger] follow_ups(ps, new, old, ws, closed, acts)
}

/// One close's follow-up, as [`follow_up`] states it, from the palettes
/// `mid` just after the closed tab's was dropped.
proof fn lemma_follow_up(new: FindPalettes, mid: FindPalettes, old: FindPalettes, ws: Workspace, c: u64,
    act: Option<u64>)
    requires
        forgot(&mid, &old, c),
        act is Some && find_id(ws.tabs@, act->0) is Some ==> new.refreshed(&mid, act->0,
            ws.tabs@[find_id(ws.tabs@, act->0)->0].text@),
        !(act is Some && find_id(ws.tabs@, act->0) is Some) ==> new == mid,
    ensures
        follow_up(new, old, ws, c, act),
{
    if act is Some && find_id(ws.tabs@, act->0) is Some {
        let x = act->0;
        assert(new.state(x) == mid.state(x) || (mid.state(x) matches Some(o) && o.open));
        assert forall|k: u64| k != x && k != c implies #[trigger] new.state(k) == old.state(k) by {
            assert(new.state(k) == mid.state(k));
            assert(mid.state(k) == old.state(k));
        }
        if c != x {
            assert(new.state(c) == mid.state(c));
        }
    }
}

/// A close's follow-up, as [`palettes_after_close`] states it, from the
/// palettes `mid` just after the closed tab's was dropped.
proof fn lemma_close_follow_up(new: FindPalettes, mid: FindPalettes, old: FindPalettes, new_ws: Workspace,
    old_ws: Workspace, c: u64)
    requires
        forgot(&mid, &old, c),
        moves_back(&old_ws) ==>
            new.refreshed(&mid, new_ws.tabs@[new_ws.active as int].id, new_ws.tabs@[new_ws.active as int].text@),
        !moves_back(&old_ws) ==> new == mid,
    ensures
        palettes_after_close(&new, &old, &new_ws, &old_ws, Some(c)),
{
    if moves_back(&old_ws) {
        let a = new_ws.tabs@[new_ws.active as int].id;
        assert(new.state(a) == mid.state(a) || (mid.state(a) matches Some(o) && o.open));
        assert forall|k: u64| k != a && k != c implies #[trigger] new.state(k) == old.state(k) by {
            assert(new.state(k) == mid.state(k));
            assert(mid.state(k) == old.state(k));
        }
        if c != a {
            assert(new.state(c) == mid.state(c));
        }
    }
}

impl EditorState {
    /// The strip's and the palettes' invariants.
    pub open spec fn wf(&self) -> bool {
        self.workspace.wf() && self.palettes.wf()
    }

    /// Neither watch moved.
    pub open spec fn watches_same(&self, old: &Self) -> bool {
        &&& self.config_watch@ == old.config_watch@
        &&& self.document_watch@ == old.document_watch@
    }

    /// `self` is `old` after a save of tab `id` finished with `outcome` at
    /// `now`, answered `result`.
    pub open spec fn saved_from(&self, old: &Self, id: u64, outcome: SaveOutcome, same_as_effective: bool, now: u64, result: (SavedAction, bool)) -> bool {
        &&& self.workspace.saved_from(&old.workspace, id, outcome, result.0)
        &&& match outcome {
            SaveOutcome::Saved { path, .. } => noted_save(self.config_watch@, old.config_watch@,
                path@, same_as_effective, now),
            _ => self.config_watch@ == old.config_watch@,
        }
        &&& self.document_watch@ == old.document_watch@
        &&& match result.0 {
            SavedAction::Closed(c) => palettes_after_close(&self.palettes, &old.palettes, &self.workspace,
                &old.workspace, Some(c)),
            _ => self.palettes == old.palettes,
        }
        &&& result.1 == outcome is Saved
    }

    /// `self` is `old` after the re-read of tab `id`'s file at `path` came
    /// back with `outcome`, answered `result`.
    pub open spec fn reloaded_from(&self, old: &Self, id: u64, path: Seq<char>, stamp: Option<DiskStamp>, outcome: ReadOutcome, result: (ReloadApplied, bool)) -> bool {
        &&& self.workspace.reloaded_from(&old.workspace, id, path, stamp, outcome, result.0)
        &&& self.watches_same(old)
        &&& match result.0 {
            ReloadApplied::Replaced(i) => self.palettes.refreshed(&old.palettes, id,
                self.workspace.tabs@[i as int].text@),
            _ => self.palettes == old.palettes,
        }
        &&& result.1 == result.0 is Vanished
    }

    /// `self` is `old` after tab `index`'s editor changed its text to `text`,
    /// answered `result`.
    pub open spec fn edited_from(&self, old: &Self, index: usize, text: String, result: (Option<bool>, bool)) -> bool {
        &&& self.workspace.edited_from(&old.workspace, index, text, result.0)
        &&& self.watches_same(old)
        &&& result.0 is Some ==> {
            let active = self.workspace.tabs@[self.workspace.active as int];
            self.palettes.refreshed(&old.palettes, active.id, active.text@)
        }
        &&& result.0 is None ==> self.palettes == old.palettes
        &&& result.1 == (result.0 == Some(true))
    }

    /// `self` is `old` after tab `index`'s cursor moved to `cursor`.
    pub open spec fn cursor_moved_from(&self, old: &Self, index: usize, cursor: (usize, usize)) -> bool {
        &&& self.workspace == old.workspace
        &&& self.watches_same(old)
        &&& (old.workspace.modal is None && index < old.workspace.tabs@.len()) ==>
            self.palettes.counter_synced(&old.palettes, old.workspace.tabs@[index as int].id, cursor)
        &&& !(old.workspace.modal is None && index < old.workspace.tabs@.len()) ==>
            self.palettes == old.palettes
    }

    /// `self` is `old` after closing tab `index` outright, answered `result`.
    pub open spec fn tab_closed_from(&self, old: &Self, index: usize, result: (Option<u64>, bool)) -> bool {
        &&& self.workspace.closed_from(&old.workspace, index, result.0)
        &&& self.watches_same(old)
        &&& palettes_after_close(&self.palettes, &old.palettes, &self.workspace, &old.workspace, result.0)
        &&& result.1 == result.0 is Some
    }

    /// `self` is `old` after the unsaved-changes prompt for tab `id` came
    /// back with `decision`, answered the save `plan` and the tabs `closed`:
    /// the strip as [`Workspace::close_confirmed_from`] says, for what each
    /// close made active, and each close followed up on the palettes.
    pub open spec fn close_confirmed_from(&self, old: &Self, id: u64, decision: CloseDecision, asks: bool,
        plan: Option<SavePlan>, closed: Seq<u64>) -> bool {
        &&& self.watches_same(old)
        &&& exists|acts: Seq<Option<u64>>| {
            &&& #[trigger] self.workspace.close_confirmed_from(&old.workspace, id, decision, asks, plan, closed, acts)
            &&& palettes_after_closes(self.palettes, old.palettes, self.workspace, closed, acts)
        }
    }

    /// `self` is `old` after the save-conflict prompt for tab `id` came back
    /// with `decision`, answered `action` and the tabs `closed`: the strip as
    /// [`Workspace::conflict_resolved_from`] says, for what each close made
    /// active, and each close followed up on the palettes.
    pub open spec fn conflict_resolved_from(&self, old: &Self, id: u64, decision: ConflictDecision,
        action: ConflictAction, closed: Seq<u64>) -> bool {
        &&& self.watches_same(old)
        &&& exists|acts: Seq<Option<u64>>| {
            &&& #[trigger] self.workspace.conflict_resolved_from(&old.workspace, id, decision, action, closed, acts)
            &&& palettes_after_closes(self.palettes, old.palettes, self.workspace, closed, acts)
        }
    }

    /// `self` is `old` after a request to close tab `index`, answered
    /// `result`: a clean tab closes at once, a dirty one asks first.
    pub open spec fn close_requested_from(&self, old: &Self, index: usize, result: (CloseRequest, bool)) -> bool {
        &&& self.workspace.close_requested_from(&old.workspace, index, result.0)
        &&& self.watches_same(old)
        &&& match result.0 {
            CloseRequest::Closed(c) => self.workspace.closed_from(&old.workspace, index, Some(c))
                && palettes_after_close(&self.palettes, &old.palettes, &self.workspace, &old.workspace, Some(c)),
            _ => self.palettes == old.palettes,
        }
        &&& result.1 == result.0 is Closed
    }

    /// `self` is `old` after a request to make tab `index` active, answered
    /// `result`.
    pub open spec fn switched_from(&self, old: &Self, index: usize, caret: Caret, result: (bool, bool)) -> bool {
        &&& self.workspace.switched_from(&old.workspace, index, caret, result.0)
        &&& self.watches_same(old)
        &&& palettes_after_switch(&self.palettes, &old.palettes, &self.workspace, result.0)
        &&& result.1 == result.0
    }

    /// `self` is `old` after moving the active tab by `delta`, answered
    /// `result`.
    pub open spec fn cycled_from(&self, old: &Self, delta: isize, caret: Caret, result: (bool, bool)) -> bool {
        &&& self.workspace.cycled_from(&old.workspace, delta, caret, result.0)
        &&& self.watches_same(old)
        &&& palettes_after_switch(&self.palettes, &old.palettes, &self.workspace, result.0)
        &&& result.1 == result.0
    }

    /// `self` is `old` after opening a new untitled tab, answered `result`.
    pub open spec fn new_tab_from(&self, old: &Self, caret: Caret, result: (u64, bool)) -> bool {
        &&& self.workspace.new_tab_from(&old.workspace, caret, result.0)
        &&& self.watches_same(old)
        &&& self.palettes.refreshed(&old.palettes, result.0, Seq::empty())
        &&& result.1
    }

    /// A fresh state around `workspace` and `config_watch`: no palettes, and a
    /// document watch with nothing pending.
    pub fn new(workspace: Workspace, config_watch: ConfigWatch) -> (state: Self)
        requires
            workspace.wf(),
        ensures
            state.wf(),
            state.workspace == workspace,
            state.config_watch@ == config_watch@,
            forall|k: u64| #[trigger] state.palettes.state(k) is None,
            state.document_watch@ == (DebounceModel { window: CHANGE_DEBOUNCE as nat, last_poke: None }),
    {
        EditorState { workspace, palettes: FindPalettes::new(), config_watch, document_watch: DocumentWatch::new() }
    }

    /// Which timers to run: autosave while a draft is stale, and each
    /// watch's settle tick while it has a burst pending.
    pub fn ticks_wanted(&self) -> (ticks: TickSet)
        ensures
            ticks.autosave == has_stale_draft(self.workspace.tabs@),
            ticks.config_settle == (self.config_watch@.debounce.last_poke is Some),
            ticks.document_settle == (self.document_watch@.last_poke is Some),
    {
        let tabs = &self.workspace.tabs;
        let mut stale = false;
        let mut i: usize = 0;
        while i < tabs.len()
            invariant
                i <= tabs@.len(),
                stale == exists|j: int| 0 <= j < i && #[trigger] tabs@[j].dirty
                    && tabs@[j].draft_generation != tabs@[j].flushed_generation,
            decreases tabs@.len() - i,
        {
            if tabs[i].dirty && tabs[i].draft_generation != tabs[i].flushed_generation {
                stale = true;
            }
            i = i + 1;
        }
        TickSet {
            autosave: stale,
            config_settle: self.config_watch.pending(),
            document_settle: self.document_watch.pending(),
        }
    }

    /// The active tab's showing palette searches its text again.
    fn refresh_active(&mut self)
        requires
            old(self).wf(),
        ensures
            final(self).wf(),
            final(self).workspace == old(self).workspace,
            final(self).watches_same(old(self)),
            final(self).palettes.refreshed(&old(self).palettes,
                old(self).workspace.tabs@[old(self).workspace.active as int].id,
                old(self).workspace.tabs@[old(self).workspace.active as int].text@),
    {
        let active = self.workspace.active;
        self.palettes.refresh(self.workspace.tabs[active].id, self.workspace.tabs[active].text.as_str());
    }

    /// Opens a new untitled tab, as [`Workspace::new_tab`] does; its palette
    /// (it has none yet) is refreshed as every newly active tab's is. The
    /// session manifest always needs writing.
    pub fn new_tab(&mut self, caret: Caret) -> (result: (u64, bool))
        requires
            old(self).wf(),
            old(self).workspace.next_id < u64::MAX,
        ensures
            final(self).wf(),
            final(self).new_tab_from(old(self), caret, result),
    {
        let id = self.workspace.new_tab(caret);
        self.refresh_active();
        (id, true)
    }

    /// Makes tab `index` active, as [`Workspace::switch_active`] does; the
    /// newly active tab's palette searches its text again. The session
    /// manifest needs writing when the active tab moved.
    pub fn switch_active(&mut self, index: usize, caret: Caret) -> (result: (bool, bool))
        requires
            old(self).wf(),
        ensures
            final(self).wf(),
            final(self).switched_from(old(self), index, caret, result),
    {
        let switched = self.workspace.switch_active(index, caret);
        if switched {
            self.refresh_active();
        }
        (switched, switched)
    }

    /// Moves the active tab by `delta`, as [`Workspace::cycle_tab`] does,
    /// with the same follow-up as [`EditorState::switch_active`].
    pub fn cycle_tab(&mut self, delta: isize, caret: Caret) -> (result: (bool, bool))
        requires
            old(self).wf(),
            old(self).workspace.tabs@.len() <= isize::MAX,
            isize::MIN <= old(self).workspace.active + delta <= isize::MAX,
        ensures
            final(self).wf(),
            final(self).cycled_from(old(self), delta, caret, result),
    {
        let switched = self.workspace.cycle_tab(delta, caret);
        if switched {
            self.refresh_active();
        }
        (switched, switched)
    }

    /// A save of tab `id` finished with `outcome` at `now`. The strip takes
    /// it as [`Workspace::file_saved`] does; a file that was written is
    /// reported to the config watch (`same_as_effective` says whether it is
    /// the effective file of its kind); a tab that closed loses its palette,
    /// with the same follow-up as [`EditorState::close_tab`]. Returns the
    /// strip's answer, and whether the session manifest needs
    /// writing: after every successful save, since the tab went clean.
    pub fn file_saved(&mut self, id: u64, outcome: SaveOutcome, same_as_effective: bool, now: u64) -> (result: (SavedAction, bool))
        requires
            old(self).wf(),
            old(self).workspace.tabs@.len() == 1 ==> old(self).workspace.next_id < u64::MAX,
        ensures
            final(self).wf(),
            final(self).saved_from(old(self), id, outcome, same_as_effective, now, result),
    {
        let write_manifest = match &outcome {
            SaveOutcome::Saved { path, .. } => {
                self.config_watch.note_saved(path.as_str(), same_as_effective, now);
                true
            },
            _ => false,
        };
        let moves_active = self.workspace.tabs.len() > 1 && self.workspace.active >= self.workspace.tabs.len() - 1;
        let action = self.workspace.file_saved(id, outcome);
        match action {
            SavedAction::Closed(c) => {
                self.palettes.forget(c);
                let ghost mid = self.palettes;
                assert(moves_active == (old(self).workspace.tabs@.len() > 1
                    && old(self).workspace.active + 1 >= old(self).workspace.tabs@.len()));
                if moves_active {
                    self.refresh_active();
                }
                proof {
                    lemma_close_follow_up(self.palettes, mid, old(self).palettes, self.workspace,
                        old(self).workspace, c);
                }
            },
            _ => {},
        }
        (action, write_manifest)
    }

    /// The background re-read of tab `id`'s file at `path` came back. The
    /// strip takes it as [`Workspace::document_reloaded`] does; a tab whose
    /// text was replaced has its showing palette search the new text. Returns
    /// the strip's answer, and whether the session manifest needs writing:
    /// when the file vanished and its tab went dirty.
    pub fn document_reloaded(&mut self, id: u64, path: &str, stamp: Option<DiskStamp>, outcome: ReadOutcome) -> (result: (ReloadApplied, bool))
        requires
            old(self).wf(),
            forall|i: int| 0 <= i < old(self).workspace.tabs@.len() ==> #[trigger] old(self).workspace.tabs@[i].draft_generation < u64::MAX,
        ensures
            final(self).wf(),
            final(self).reloaded_from(old(self), id, path@, stamp, outcome, result),
    {
        let applied = self.workspace.document_reloaded(id, path, stamp, outcome);
        let write_manifest = match applied {
            ReloadApplied::Replaced(i) => {
                self.palettes.refresh(id, self.workspace.tabs[i].text.as_str());
                false
            },
            ReloadApplied::Vanished(_) => true,
            _ => false,
        };
        (applied, write_manifest)
    }

    /// Tab `index`'s editor changed its text to `text`. The strip takes it as
    /// [`Workspace::edited`] does; after an edit the active tab's showing
    /// palette searches its text again. Returns the strip's answer, and
    /// whether the session manifest needs writing: when the tab just became
    /// dirty.
    pub fn edited(&mut self, index: usize, text: String) -> (result: (Option<bool>, bool))
        requires
            old(self).wf(),
            index < old(self).workspace.tabs@.len() ==> old(self).workspace.tabs@[index as int].draft_generation < u64::MAX,
        ensures
            final(self).wf(),
            final(self).edited_from(old(self), index, text, result),
    {
        let became_dirty = self.workspace.edited(index, text);
        if became_dirty.is_some() {
            self.refresh_active();
        }
        let write_manifest = match became_dirty {
            Some(b) => b,
            None => false,
        };
        (became_dirty, write_manifest)
    }

    /// Tab `index`'s cursor moved to `cursor` with no edit: its showing
    /// palette's current match follows the cursor. Turned away while a
    /// dialog is up.
    pub fn cursor_moved(&mut self, index: usize, cursor: (usize, usize))
        requires
            old(self).wf(),
        ensures
            final(self).wf(),
            final(self).cursor_moved_from(old(self), index, cursor),
    {
        if self.workspace.modal.is_none() && index < self.workspace.tabs.len() {
            self.palettes.sync_counter(self.workspace.tabs[index].id, cursor);
        }
    }

    /// Closes tab `index` outright, as [`Workspace::close_tab`] does, and
    /// drops its palette; when that moved the active tab, the newly active
    /// tab's palette searches again. Returns the closed id, and whether the
    /// session manifest needs writing: whenever a tab closed.
    pub fn close_tab(&mut self, index: usize) -> (result: (Option<u64>, bool))
        requires
            old(self).wf(),
            old(self).workspace.tabs@.len() == 1 ==> old(self).workspace.next_id < u64::MAX,
        ensures
            final(self).wf(),
            final(self).tab_closed_from(old(self), index, result),
    {
        let moves_active = self.workspace.tabs.len() > 1 && self.workspace.active >= self.workspace.tabs.len() - 1;
        let closed = self.workspace.close_tab(index);
        match closed {
            Some(c) => {
                self.palettes.forget(c);
                let ghost mid = self.palettes;
                if moves_active {
                    self.refresh_active();
                }
                assert(forgot(&mid, &old(self).palettes, c));
            },
            None => {},
        }
        (closed, closed.is_some())
    }

    /// The follow-ups of the closes `closed`, each having made the tab in
    /// `acts` active, if any: as [`EditorState::close_tab`] follows one up.
    fn follow_up_closes(&mut self, closed: &Vec<u64>, acts: &Vec<Option<u64>>)
        requires
            old(self).wf(),
            closed@.len() == acts@.len(),
        ensures
            final(self).wf(),
            final(self).workspace == old(self).workspace,
            final(self).watches_same(old(self)),
            palettes_after_closes(final(self).palettes, old(self).palettes, old(self).workspace, closed@, acts@),
    {
        let ghost mut ps: Seq<FindPalettes> = seq![self.palettes];
        let mut j: usize = 0;
        while j < closed.len()
            invariant
                j <= closed@.len(),
                closed@.len() == acts@.len(),
                self.wf(),
                self.workspace == old(self).workspace,
                self.watches_same(old(self)),
                ps.len() == j + 1,
                ps[0] == old(self).palettes,
                ps.last() == self.palettes,
                forall|k: int| 0 <= k < j ==> follow_up(#[trigger] ps[k + 1], ps[k], self.workspace, closed@[k], acts@[k]),
            decreases closed@.len() - j,
        {
            let ghost prev = self.palettes;
            let c = closed[j];
            self.palettes.forget(c);
            let ghost mid = self.palettes;
            match acts[j] {
                Some(x) => match self.workspace.index_of_id(x) {
                    Some(i) => self.palettes.refresh(x, self.workspace.tabs[i].text.as_str()),
                    None => {},
                },
                None => {},
            }
            proof {
                lemma_follow_up(self.palettes, mid, prev, self.workspace, c, acts@[j as int]);
                let next = ps.push(self.palettes);
                assert forall|k: int| 0 <= k < j + 1 implies
                    follow_up(#[trigger] next[k + 1], next[k], self.workspace, closed@[k], acts@[k]) by {
                    if k < j {
                        assert(next[k + 1] == ps[k + 1]);
                        assert(next[k] == ps[k]);
                    } else {
                        assert(next[k] == ps.last());
                    }
                }
                ps = next;
            }
            j = j + 1;
        }
        assert(follow_ups(ps, self.palettes, old(self).palettes, old(self).workspace, closed@, acts@));
    }

    /// The unsaved-changes prompt for tab `id` came back with `decision`.
    /// The strip takes it as [`Workspace::close_confirmed`] does; each tab
    /// it closed has the follow-up [`EditorState::close_tab`] gives a close.
    /// Returns the save to run, if any, the tabs closed, and whether the
    /// session manifest needs writing: whenever a tab closed.
    pub fn close_confirmed(&mut self, id: u64, decision: CloseDecision, asks: bool) -> (result: (Option<SavePlan>, Vec<u64>, bool))
        requires
            old(self).wf(),
            old(self).workspace.next_id + old(self).workspace.close_queue@.len() + 1 <= u64::MAX,
        ensures
            final(self).wf(),
            final(self).watches_same(old(self)),
            final(self).close_confirmed_from(old(self), id, decision, asks, result.0, result.1@),
            result.2 == (result.1@.len() > 0),
    {
        let (plan, closed, acts) = self.workspace.close_confirmed_reporting(id, decision, asks);
        proof {
            lemma_close_confirmed_acts(&old(self).workspace, &self.workspace, id, decision, asks, plan, closed@, acts@);
        }
        self.follow_up_closes(&closed, &acts);
        let write_manifest = closed.len() > 0;
        assert(self.workspace.close_confirmed_from(&old(self).workspace, id, decision, asks, plan, closed@, acts@)
            && palettes_after_closes(self.palettes, old(self).palettes, self.workspace, closed@, acts@));
        assert(self.close_confirmed_from(old(self), id, decision, asks, plan, closed@));
        (plan, closed, write_manifest)
    }

    /// The save-conflict prompt for tab `id` came back with `decision`. The
    /// strip takes it as [`Workspace::conflict_resolved`] does; each tab the
    /// dialogs behind it closed has the follow-up [`EditorState::close_tab`]
    /// gives a close. Returns what to do about the file, the tabs closed,
    /// and whether the session manifest needs writing: whenever a tab
    /// closed.
    pub fn conflict_resolved(&mut self, id: u64, decision: ConflictDecision) -> (result: (ConflictAction, Vec<u64>, bool))
        requires
            old(self).wf(),
            old(self).workspace.next_id + old(self).workspace.close_queue@.len() <= u64::MAX,
        ensures
            final(self).wf(),
            final(self).watches_same(old(self)),
            final(self).conflict_resolved_from(old(self), id, decision, result.0, result.1@),
            result.2 == (result.1@.len() > 0),
    {
        let (action, closed, acts) = self.workspace.conflict_resolved_reporting(id, decision);
        proof {
            lemma_conflict_resolved_acts(&old(self).workspace, &self.workspace, id, decision, action, closed@, acts@);
        }
        self.follow_up_closes(&closed, &acts);
        let write_manifest = closed.len() > 0;
        assert(self.workspace.conflict_resolved_from(&old(self).workspace, id, decision, action, closed@, acts@)
            && palettes_after_closes(self.palettes, old(self).palettes, self.workspace, closed@, acts@));
        assert(self.conflict_resolved_from(old(self), id, decision, action, closed@));
        (action, closed, write_manifest)
    }

    /// A request to close tab `index`: a clean tab closes at once, as
    /// [`EditorState::close_tab`] does; a dirty one asks first, or waits
    /// behind the dialog already up, as [`Workspace::request_close`] does.
    pub fn request_close(&mut self, index: usize) -> (result: (CloseRequest, bool))
        requires
            old(self).wf(),
            old(self).workspace.tabs@.len() == 1 ==> old(self).workspace.next_id < u64::MAX,
        ensures
            final(self).wf(),
            final(self).close_requested_from(old(self), index, result),
    {
        if index < self.workspace.tabs.len() && !self.workspace.tabs[index].dirty {
            let (closed, write_manifest) = self.close_tab(index);
            match closed {
                Some(c) => (CloseRequest::Closed(c), write_manifest),
                None => (CloseRequest::Ignored, write_manifest),
            }
        } else {
            let request = self.workspace.request_close(index);
            (request, false)
        }
    }
}

/// Whether no two tabs share an id.
pub open spec fn distinct_ids(tabs: Seq<Tab>) -> bool {
    forall|i: int, j: int| 0 <= i < j < tabs.len() ==> #[trigger] tabs[i].id != #[trigger] tabs[j].id
}

/// Tabs with the same ids in the same places share distinctness.
proof fn lemma_same_ids_distinct(a: Seq<Tab>, b: Seq<Tab>)
    requires
        distinct_ids(a),
        a.len() == b.len(),
        forall|i: int| 0 <= i < a.len() ==> #[trigger] b[i].id == a[i].id,
    ensures
        distinct_ids(b),
{
    assert forall|i: int, j: int| 0 <= i < j < b.len() implies #[trigger] b[i].id != #[trigger] b[j].id by {
        assert(b[i].id == a[i].id);
        assert(b[j].id == a[j].id);
    }
}

/// Removing a tab keeps the rest distinct.
proof fn lemma_remove_distinct(a: Seq<Tab>, k: int)
    requires
        distinct_ids(a),
        0 <= k < a.len(),
    ensures
        distinct_ids(a.remove(k)),
{
    let r = a.remove(k);
    assert forall|i: int, j: int| 0 <= i < j < r.len() implies #[trigger] r[i].id != #[trigger] r[j].id by {
        let ai = if i < k { i } else { i + 1 };
        let aj = if j < k { j } else { j + 1 };
        assert(r[i] == a[ai]);
        assert(r[j] == a[aj]);
    }
}

/// A strip whose ids are all below `next_id`, given one more tab with that
/// id, stays distinct.
proof fn lemma_push_fresh_distinct(a: Seq<Tab>, b: Seq<Tab>, next_id: u64)
    requires
        distinct_ids(a),
        forall|i: int| 0 <= i < a.len() ==> #[trigger] a[i].id < next_id,
        b.len() == a.len() + 1,
        forall|i: int| 0 <= i < a.len() ==> #[trigger] b[i].id == a[i].id,
        b.last().id == next_id,
    ensures
        distinct_ids(b),
{
    assert forall|i: int, j: int| 0 <= i < j < b.len() implies #[trigger] b[i].id != #[trigger] b[j].id by {
        assert(b[i].id == a[i].id);
        if j < a.len() {
            assert(b[j].id == a[j].id);
        }
    }
}

/// Updating the first tab with id `id` through an update that keeps ids
/// keeps every id in place.
proof fn lemma_update_first_ids(tabs: Seq<Tab>, id: u64, f: spec_fn(Tab) -> Tab)
    requires
        forall|t: Tab| #[trigger] f(t).id == t.id,
    ensures
        update_first(tabs, id, f).len() == tabs.len(),
        forall|i: int| 0 <= i < tabs.len() ==> #[trigger] update_first(tabs, id, f)[i].id == tabs[i].id,
{
    lemma_find_id(tabs, id);
}

/// The update a save makes keeps the tab's id.
proof fn lemma_saved_with_keeps_id(path: String, stamp: Option<DiskStamp>)
    ensures
        forall|t: Tab| #[trigger] saved_with(path, stamp)(t).id == t.id,
{
}

/// The update a conflict makes keeps the tab's id.
proof fn lemma_flag_keeps_id()
    ensures
        forall|t: Tab| #[trigger] flag_external()(t).id == t.id,
{
}

/// A strip that lost tab `i` of `tabs` the way closing does keeps its ids
/// distinct.
proof fn lemma_closed_strip_distinct(tabs: Seq<Tab>, i: int, active: usize, next_id: u64,
    final_tabs: Seq<Tab>, final_active: usize, final_next: u64)
    requires
        distinct_ids(tabs),
        0 <= i < tabs.len(),
        crate::workspace::closed_strip(tabs, i, active, next_id, final_tabs, final_active, final_next),
    ensures
        distinct_ids(final_tabs),
{
    lemma_remove_distinct(tabs, i);
}

/// Something that happened to the editor, as plain values.
pub enum EditorEvent {
    /// The user asked for a new tab; `caret` is the outgoing editor's.
    NewTab { caret: Caret },
    /// The user picked tab `index`.
    SelectTab { index: usize, caret: Caret },
    /// The user moved to the next (`1`) or previous (`-1`) tab.
    CycleTab { delta: isize, caret: Caret },
    /// The user asked to close tab `index`.
    CloseTab { index: usize },
    /// Tab `index`'s editor changed its text to `text`.
    Edited { index: usize, text: String },
    /// Tab `index`'s cursor moved to `cursor` with no edit.
    CursorMoved { index: usize, cursor: (usize, usize) },
    /// A key reached the dialog, if one is up.
    ModalKey { key: ModalKey },
    /// A save of tab `id` finished at `now`.
    FileSaved { id: u64, outcome: SaveOutcome, same_as_effective: bool, now: u64 },
    /// The background re-read of tab `id`'s file at `path` came back.
    DocumentReloaded { id: u64, path: String, stamp: Option<DiskStamp>, outcome: ReadOutcome },
    /// The file system touched a config file at `now`.
    ConfigFileEvent { file: WatchedFile, now: u64 },
    /// The file system touched a watched document directory at `now`.
    DocumentFileEvent { now: u64 },
}

/// What the state answered an [`EditorEvent`], beside whether the session
/// manifest needs writing.
#[derive(Debug, Clone, Copy, PartialEq, Eq, Structural)]
pub enum Handled {
    /// A new tab with this id opened.
    Opened(u64),
    /// Whether the active tab moved.
    Switched(bool),
    /// What came of a close request.
    CloseRequested(CloseRequest),
    /// Whether an edit made its tab dirty, `None` when it was turned away.
    Edited(Option<bool>),
    /// What the dialog made of a key.
    Key(ModalKeyOutcome),
    /// What the strip made of a finished save.
    Saved(SavedAction),
    /// How a re-read was applied.
    Reloaded(ReloadApplied),
    /// The event was taken note of; nothing to answer.
    Noted,
}

impl EditorState {
    /// Room for the counters `event` can bump: a fresh tab id where a tab
    /// may be added, one more edit of a tab it may edit, and an `isize`
    /// step for moving among the tabs. Each is a machine limit.
    pub open spec fn has_room_for(&self, event: &EditorEvent) -> bool {
        let ws = self.workspace;
        match *event {
            EditorEvent::NewTab { .. } => ws.next_id < u64::MAX,
            EditorEvent::CycleTab { delta, .. } => ws.tabs@.len() <= isize::MAX
                && isize::MIN <= ws.active + delta <= isize::MAX,
            EditorEvent::CloseTab { .. } => ws.tabs@.len() == 1 ==> ws.next_id < u64::MAX,
            EditorEvent::Edited { index, .. } => index < ws.tabs@.len() ==> ws.tabs@[index as int].draft_generation < u64::MAX,
            EditorEvent::FileSaved { .. } => ws.tabs@.len() == 1 ==> ws.next_id < u64::MAX,
            EditorEvent::DocumentReloaded { .. } => forall|i: int| 0 <= i < ws.tabs@.len()
                ==> #[trigger] ws.tabs@[i].draft_generation < u64::MAX,
            _ => true,
        }
    }

    /// Handles one event: the follow-ups above, chosen by the event's kind.
    /// Whatever the event, the strip keeps at least one tab with the active
    /// index in range, every selected match exists, and tab ids that were
    /// distinct stay distinct.
    pub fn handle(&mut self, event: EditorEvent) -> (result: (Handled, bool))
        requires
            old(self).wf(),
            old(self).has_room_for(&event),
        ensures
            final(self).wf(),
            final(self).workspace.tabs@.len() > 0,
            final(self).workspace.active < final(self).workspace.tabs@.len(),
            distinct_ids(old(self).workspace.tabs@) ==> distinct_ids(final(self).workspace.tabs@),
            match event {
                EditorEvent::NewTab { caret } => result.0 matches Handled::Opened(id)
                    && final(self).new_tab_from(old(self), caret, (id, result.1)),
                EditorEvent::SelectTab { index, caret } => result.0 matches Handled::Switched(s)
                    && final(self).switched_from(old(self), index, caret, (s, result.1)),
                EditorEvent::CycleTab { delta, caret } => result.0 matches Handled::Switched(s)
                    && final(self).cycled_from(old(self), delta, caret, (s, result.1)),
                EditorEvent::CloseTab { index } => result.0 matches Handled::CloseRequested(r)
                    && final(self).close_requested_from(old(self), index, (r, result.1)),
                EditorEvent::Edited { index, text } => result.0 matches Handled::Edited(d)
                    && final(self).edited_from(old(self), index, text, (d, result.1)),
                EditorEvent::CursorMoved { index, cursor } => result == (Handled::Noted, false)
                    && final(self).cursor_moved_from(old(self), index, cursor),
                EditorEvent::ModalKey { key } => result.0 matches Handled::Key(o) && !result.1
                    && final(self).workspace.modal_key_from(&old(self).workspace, key, o)
                    && final(self).palettes == old(self).palettes && final(self).watches_same(old(self)),
                EditorEvent::FileSaved { id, outcome, same_as_effective, now } => result.0 matches Handled::Saved(a)
                    && final(self).saved_from(old(self), id, outcome, same_as_effective, now, (a, result.1)),
                EditorEvent::DocumentReloaded { id, path, stamp, outcome } => result.0 matches Handled::Reloaded(a)
                    && final(self).reloaded_from(old(self), id, path@, stamp, outcome, (a, result.1)),
                EditorEvent::ConfigFileEvent { file, now } => result == (Handled::Noted, false)
                    && final(self).workspace == old(self).workspace && final(self).palettes == old(self).palettes
                    && final(self).config_watch@ == old(self).config_watch@.marked(file, now)
                    && final(self).document_watch@ == old(self).document_watch@,
                EditorEvent::DocumentFileEvent { now } => result == (Handled::Noted, false)
                    && final(self).workspace == old(self).workspace && final(self).palettes == old(self).palettes
                    && final(self).config_watch@ == old(self).config_watch@
                    && final(self).document_watch@ == old(self).document_watch@.poked(now),
            },
    {
        let ghost before = self.workspace.tabs@;
        match event {
            EditorEvent::NewTab { caret } => {
                let (id, write) = self.new_tab(caret);
                proof {
                    if distinct_ids(before) {
                        let after = self.workspace.tabs@;
                        assert forall|i: int| 0 <= i < before.len() implies #[trigger] after[i].id == before[i].id by {
                            assert(after[i] == after.drop_last()[i]);
                        }
                        lemma_push_fresh_distinct(before, after, old(self).workspace.next_id);
                    }
                }
                (Handled::Opened(id), write)
            },
            EditorEvent::SelectTab { index, caret } => {
                let (switched, write) = self.switch_active(index, caret);
                proof {
                    if distinct_ids(before) {
                        lemma_same_ids_distinct(before, self.workspace.tabs@);
                    }
                }
                (Handled::Switched(switched), write)
            },
            EditorEvent::CycleTab { delta, caret } => {
                let (switched, write) = self.cycle_tab(delta, caret);
                proof {
                    if distinct_ids(before) {
                        lemma_same_ids_distinct(before, self.workspace.tabs@);
                    }
                }
                (Handled::Switched(switched), write)
            },
            EditorEvent::CloseTab { index } => {
                let (request, write) = self.request_close(index);
                proof {
                    if distinct_ids(before) {
                        match request {
                            CloseRequest::Closed(_) => {
                                if before.remove(index as int).len() > 0 {
                                    lemma_remove_distinct(before, index as int);
                                }
                            },
                            _ => {},
                        }
                    }
                }
                (Handled::CloseRequested(request), write)
            },
            EditorEvent::Edited { index, text } => {
                let (became_dirty, write) = self.edited(index, text);
                proof {
                    if distinct_ids(before) {
                        lemma_same_ids_distinct(before, self.workspace.tabs@);
                    }
                }
                (Handled::Edited(became_dirty), write)
            },
            EditorEvent::CursorMoved { index, cursor } => {
                self.cursor_moved(index, cursor);
                (Handled::Noted, false)
            },
            EditorEvent::ModalKey { key } => {
                let outcome = self.workspace.modal_key(key);
                (Handled::Key(outcome), false)
            },
            EditorEvent::FileSaved { id, outcome, same_as_effective, now } => {
                let ghost saved_outcome = outcome;
                let (action, write) = self.file_saved(id, outcome, same_as_effective, now);
                proof {
                    if distinct_ids(before) {
                        match saved_outcome {
                            SaveOutcome::Saved { path, stamp } => {
                                lemma_saved_with_keeps_id(path, stamp);
                                let updated = update_first(before, id, saved_with(path, stamp));
                                lemma_update_first_ids(before, id, saved_with(path, stamp));
                                lemma_same_ids_distinct(before, updated);
                                lemma_find_id(before, id);
                                if old(self).workspace.pending_close_after_save@.contains(id) {
                                    if let Some(i) = find_id(before, id) {
                                        lemma_closed_strip_distinct(updated, i, old(self).workspace.active,
                                            old(self).workspace.next_id, self.workspace.tabs@, self.workspace.active,
                                            self.workspace.next_id);
                                    } else {
                                        lemma_same_ids_distinct(before, self.workspace.tabs@);
                                    }
                                } else {
                                    lemma_same_ids_distinct(before, self.workspace.tabs@);
                                }
                            },
                            SaveOutcome::Conflict => {
                                lemma_flag_keeps_id();
                                lemma_update_first_ids(before, id, flag_external());
                                lemma_same_ids_distinct(before, self.workspace.tabs@);
                            },
                            _ => {},
                        }
                    }
                }
                (Handled::Saved(action), write)
            },
            EditorEvent::DocumentReloaded { id, path, stamp, outcome } => {
                let (applied, write) = self.document_reloaded(id, path.as_str(), stamp, outcome);
                proof {
                    if distinct_ids(before) {
                        let after = self.workspace.tabs@;
                        assert forall|i: int| 0 <= i < before.len() implies #[trigger] after[i].id == before[i].id by {
                            match applied {
                                ReloadApplied::Replaced(k) => if i != k { assert(after[i] == before[i]); },
                                ReloadApplied::Flagged(k) => assert(after[i] == before.update(k as int, after[k as int])[i]),
                                _ => {},
                            }
                        }
                        lemma_same_ids_distinct(before, after);
                    }
                }
                (Handled::Reloaded(applied), write)
            },
            EditorEvent::ConfigFileEvent { file, now } => {
                self.config_watch.note_event(file, now);
                (Handled::Noted, false)
            },
            EditorEvent::DocumentFileEvent { now } => {
                self.document_watch.note_event(now);
                (Handled::Noted, false)
            },
        }
    }
}

} // verus!
