//! The editor's tab strip and its dialogs, as a state machine: which tabs
//! are open and which is active, the unsaved-changes and save-conflict
//! prompts with their queues, and how saves, reloads and external changes
//! move each tab's flags. The shell performs the I/O these decisions ask
//! for and hands back what came of it.
use vstd::prelude::*;
use vstd::string::StringExecFns;
use crate::disk::DiskStamp;
use crate::tab::{path_view, is_fresh, SavedSelection, Tab};

verus! {

broadcast use vstd::string::group_string_axioms;

/// The live editor state of the active tab, as the shell reads it from the
/// editor widget just before an operation that may switch tabs.
#[derive(Debug, Clone, Copy)]
pub struct Caret {
    pub cursor: (usize, usize),
    pub selection: Option<SavedSelection>,
}

/// Which dialog a [`Modal`] is.
#[derive(Debug, Clone, Copy, PartialEq, Eq, Structural)]
pub enum ModalKind {
    /// The unsaved-changes prompt: Save, Don't Save, Cancel.
    Close,
    /// The save-conflict prompt: Overwrite, Discard & Reload, Cancel.
    SaveConflict,
}

/// A three-button dialog about one tab; `focused` indexes the choices
/// left to right.
#[derive(Debug)]
pub struct Modal {
    pub kind: ModalKind,
    pub tab_id: u64,
    pub title: String,
    pub focused: usize,
}

/// The choices of the unsaved-changes prompt.
#[derive(Debug, Clone, Copy, PartialEq, Eq, Structural)]
pub enum CloseDecision {
    Save,
    DontSave,
    Cancel,
}

/// The choices of the save-conflict prompt.
#[derive(Debug, Clone, Copy, PartialEq, Eq, Structural)]
pub enum ConflictDecision {
    /// Save anyway, skipping the check.
    Overwrite,
    /// Throw the buffer away and take what is on disk.
    DiscardAndReload,
    /// Leave both sides alone; the tab stays dirty and flagged.
    Cancel,
}

/// What a dialog's answer is.
#[derive(Debug, Clone, Copy, PartialEq, Eq, Structural)]
pub enum ModalAnswer {
    Close(u64, CloseDecision),
    Conflict(u64, ConflictDecision),
}

/// The answer the focused choice of a dialog gives.
pub open spec fn resolve_spec(kind: ModalKind, tab_id: u64, focused: usize) -> ModalAnswer {
    match kind {
        ModalKind::Close => ModalAnswer::Close(tab_id, if focused == 0 {
            CloseDecision::Save
        } else if focused == 1 {
            CloseDecision::DontSave
        } else {
            CloseDecision::Cancel
        }),
        ModalKind::SaveConflict => ModalAnswer::Conflict(tab_id, if focused == 0 {
            ConflictDecision::Overwrite
        } else if focused == 1 {
            ConflictDecision::DiscardAndReload
        } else {
            ConflictDecision::Cancel
        }),
    }
}

/// The answer cancelling a dialog gives.
pub open spec fn cancel_spec(kind: ModalKind, tab_id: u64) -> ModalAnswer {
    match kind {
        ModalKind::Close => ModalAnswer::Close(tab_id, CloseDecision::Cancel),
        ModalKind::SaveConflict => ModalAnswer::Conflict(tab_id, ConflictDecision::Cancel),
    }
}

impl Modal {
    /// The answer Enter or Space gives: the focused choice.
    pub fn resolve(&self) -> (answer: ModalAnswer)
        ensures
            answer == resolve_spec(self.kind, self.tab_id, self.focused),
    {
        match self.kind {
            ModalKind::Close => {
                let decision = if self.focused == 0 {
                    CloseDecision::Save
                } else if self.focused == 1 {
                    CloseDecision::DontSave
                } else {
                    CloseDecision::Cancel
                };
                ModalAnswer::Close(self.tab_id, decision)
            },
            ModalKind::SaveConflict => {
                let decision = if self.focused == 0 {
                    ConflictDecision::Overwrite
                } else if self.focused == 1 {
                    ConflictDecision::DiscardAndReload
                } else {
                    ConflictDecision::Cancel
                };
                ModalAnswer::Conflict(self.tab_id, decision)
            },
        }
    }

    /// The answer Escape gives: always the dialog's cancel.
    pub fn cancel(&self) -> (answer: ModalAnswer)
        ensures
            answer == cancel_spec(self.kind, self.tab_id),
    {
        match self.kind {
            ModalKind::Close => ModalAnswer::Close(self.tab_id, CloseDecision::Cancel),
            ModalKind::SaveConflict => ModalAnswer::Conflict(self.tab_id, ConflictDecision::Cancel),
        }
    }
}

/// Enter answers a dialog with its focused choice, in the dialog's
/// left-to-right order: Save, Don't Save, Cancel for the unsaved-changes
/// prompt; Overwrite, Discard & Reload, Cancel for the save-conflict
/// prompt. The answer is about the dialog's own tab, and Enter on Cancel
/// answers as Escape does.
pub proof fn lemma_dialog_answers_follow_focus(tab_id: u64)
    ensures
        resolve_spec(ModalKind::Close, tab_id, 0) == ModalAnswer::Close(tab_id, CloseDecision::Save),
        resolve_spec(ModalKind::Close, tab_id, 1) == ModalAnswer::Close(tab_id, CloseDecision::DontSave),
        resolve_spec(ModalKind::Close, tab_id, 2) == ModalAnswer::Close(tab_id, CloseDecision::Cancel),
        resolve_spec(ModalKind::SaveConflict, tab_id, 0) == ModalAnswer::Conflict(tab_id, ConflictDecision::Overwrite),
        resolve_spec(ModalKind::SaveConflict, tab_id, 1)
            == ModalAnswer::Conflict(tab_id, ConflictDecision::DiscardAndReload),
        resolve_spec(ModalKind::SaveConflict, tab_id, 2) == ModalAnswer::Conflict(tab_id, ConflictDecision::Cancel),
        cancel_spec(ModalKind::Close, tab_id) == ModalAnswer::Close(tab_id, CloseDecision::Cancel),
        cancel_spec(ModalKind::SaveConflict, tab_id) == ModalAnswer::Conflict(tab_id, ConflictDecision::Cancel),
        resolve_spec(ModalKind::Close, tab_id, 2) == cancel_spec(ModalKind::Close, tab_id),
        resolve_spec(ModalKind::SaveConflict, tab_id, 2) == cancel_spec(ModalKind::SaveConflict, tab_id),
{
}

/// No focus of the save-conflict prompt other than Discard & Reload (the
/// middle one) throws the buffer away, and none but Overwrite (the first)
/// writes over the file.
pub proof fn lemma_conflict_focus_is_the_only_way(tab_id: u64, focused: usize)
    requires
        focused < 3,
    ensures
        resolve_spec(ModalKind::SaveConflict, tab_id, focused)
            == ModalAnswer::Conflict(tab_id, ConflictDecision::DiscardAndReload) <==> focused == 1,
        resolve_spec(ModalKind::SaveConflict, tab_id, focused)
            == ModalAnswer::Conflict(tab_id, ConflictDecision::Overwrite) <==> focused == 0,
        resolve_spec(ModalKind::Close, tab_id, focused)
            == ModalAnswer::Close(tab_id, CloseDecision::DontSave) <==> focused == 1,
{
}

/// What a request to close a tab came to.
#[derive(Debug, Clone, Copy, PartialEq, Eq, Structural)]
pub enum CloseRequest {
    /// No tab at that index.
    Ignored,
    /// The tab was clean and is gone; its id.
    Closed(u64),
    /// The unsaved-changes prompt is up for it.
    Prompted,
    /// Another dialog is up; the request waits in the queue.
    Queued,
}

/// What a request for the save-conflict prompt came to.
#[derive(Debug, Clone, Copy, PartialEq, Eq, Structural)]
pub enum PromptRequest {
    /// No tab with that id.
    Ignored,
    /// The prompt is up.
    Prompted,
    /// Another dialog is up; the prompt waits in the queue.
    Queued,
}

/// A key pressed while a dialog may be up.
#[derive(Debug, Clone, Copy, PartialEq, Eq, Structural)]
pub enum ModalKey {
    Left,
    Right,
    Tab,
    ShiftTab,
    /// Enter or Space.
    Confirm,
    Escape,
    /// Any other key.
    Other,
}

/// What a key press did to the dialog.
#[derive(Debug, Clone, Copy, PartialEq, Eq, Structural)]
pub enum ModalKeyOutcome {
    /// No dialog is up: the key is the editor's.
    NoModal,
    /// The dialog swallowed the key.
    Handled,
    /// The dialog was answered.
    Answered(ModalAnswer),
}

/// Where focus moves among three choices for a key: left and shift-tab go
/// back, right and tab go on, wrapping around.
pub open spec fn moved_focus(focused: usize, key: ModalKey) -> usize {
    match key {
        ModalKey::Left | ModalKey::ShiftTab => ((focused + 2) % 3) as usize,
        ModalKey::Right | ModalKey::Tab => ((focused + 1) % 3) as usize,
        _ => focused,
    }
}

/// What a save expects to find on disk, and so whether it checks at all.
#[derive(Debug, Clone, Copy, PartialEq, Eq, Structural)]
pub enum SaveExpectation {
    /// Write regardless: a Save As target, whose dialog asks its own
    /// overwrite question, or a configuration that never asks.
    Unchecked,
    /// The stamp the tab last saw; `None` means it saw no file at all.
    Seen(Option<DiskStamp>),
}

/// Whether writing now, with the file's current stamp `current`, would
/// clobber a change made since the tab last looked. A missing file is never
/// a conflict: there is nothing to clobber. A file that appeared where the
/// tab saw none is.
pub open spec fn conflicts_spec(current: Option<DiskStamp>, expected: SaveExpectation) -> bool {
    match expected {
        SaveExpectation::Unchecked => false,
        SaveExpectation::Seen(seen) => current is Some && current != seen,
    }
}

/// Whether a write would clobber an external change; `current` is the
/// file's stamp as it stands now.
pub fn conflicts(current: Option<DiskStamp>, expected: SaveExpectation) -> (conflict: bool)
    ensures
        conflict == conflicts_spec(current, expected),
{
    match expected {
        SaveExpectation::Unchecked => false,
        SaveExpectation::Seen(seen) => match current {
            Some(now) => match seen {
                Some(before) => !(now.mtime == before.mtime && now.len == before.len),
                None => true,
            },
            None => false,
        },
    }
}

/// A save to run: which tab, where (a path, unless a dialog picks one),
/// whether a dialog shows, and what the write expects on disk.
#[derive(Debug)]
pub struct SavePlan {
    pub id: u64,
    pub existing_path: Option<String>,
    pub force_dialog: bool,
    pub expectation: SaveExpectation,
}

/// How a save finished.
#[derive(Debug)]
pub enum SaveOutcome {
    /// Written to `path`; `stamp` is what was written, as stamped right after.
    Saved { path: String, stamp: Option<DiskStamp> },
    /// The save dialog was dismissed.
    DialogClosed,
    /// The file changed on disk since the tab last saw it; nothing written.
    Conflict,
    /// The write failed.
    Failed,
}

/// What the shell does after a save finished.
#[derive(Debug, Clone, Copy, PartialEq, Eq, Structural)]
pub enum SavedAction {
    Nothing,
    /// The tab was waiting to close after its save, and is now closed.
    Closed(u64),
    /// The save-conflict prompt was requested.
    Prompt(PromptRequest),
}

/// How an asynchronous re-read of a file came back.
#[derive(Debug)]
pub enum ReadOutcome {
    Loaded(String),
    NotFound,
    /// Any other failure.
    Failed,
}

/// What the shell does after a dialog answer.
#[derive(Debug)]
pub enum ConflictAction {
    Nothing,
    /// Save tab `id` to `path` again, with no expectation.
    Overwrite { id: u64, path: String },
    /// Re-read tab `id`'s file at `path`, to replace its buffer.
    Reload { id: u64, path: String },
}

/// What a finished re-read did to the tab it was for.
#[derive(Debug, Clone, Copy, PartialEq, Eq, Structural)]
pub enum ReloadApplied {
    /// No tab holds that file any more, or the read failed: nothing changed.
    Ignored,
    /// The tab has unsaved edits: they stay, and the tab is flagged.
    Flagged(usize),
    /// The file is gone: the clean buffer is kept as unsaved work.
    Vanished(usize),
    /// The clean buffer now holds what is on disk.
    Replaced(usize),
}

/// The ids of a list of tabs, in order.
pub open spec fn tab_ids(tabs: Seq<Tab>) -> Seq<u64> {
    tabs.map_values(|t: Tab| t.id)
}

/// Where the first tab with id `id` stands.
pub open spec fn find_id(tabs: Seq<Tab>, id: u64) -> Option<int>
    decreases tabs.len(),
{
    if tabs.len() == 0 {
        None
    } else if tabs[0].id == id {
        Some(0)
    } else {
        match find_id(tabs.drop_first(), id) {
            Some(k) => Some(k + 1),
            None => None,
        }
    }
}

/// `find_id` is the first index with that id.
pub proof fn lemma_find_id(tabs: Seq<Tab>, id: u64)
    ensures
        match find_id(tabs, id) {
            Some(i) => 0 <= i < tabs.len() && tabs[i].id == id
                && forall|j: int| 0 <= j < i ==> #[trigger] tabs[j].id != id,
            None => forall|j: int| 0 <= j < tabs.len() ==> #[trigger] tabs[j].id != id,
        },
    decreases tabs.len(),
{
    if tabs.len() > 0 && tabs[0].id != id {
        lemma_find_id(tabs.drop_first(), id);
        match find_id(tabs.drop_first(), id) {
            Some(k) => {
                assert forall|j: int| 0 <= j < k + 1 implies #[trigger] tabs[j].id != id by {
                    if j > 0 {
                        assert(tabs[j] == tabs.drop_first()[j - 1]);
                    }
                }
            },
            None => {
                assert forall|j: int| 0 <= j < tabs.len() implies #[trigger] tabs[j].id != id by {
                    if j > 0 {
                        assert(tabs[j] == tabs.drop_first()[j - 1]);
                    }
                }
            },
        }
    }
}

/// A tab after a successful save to `path` that wrote what `stamp` stamps.
pub open spec fn saved_tab(tab: Tab, path: String, stamp: Option<DiskStamp>) -> Tab {
    Tab {
        document: crate::tab::Document { path: Some(path) },
        dirty: false,
        disk: stamp,
        externally_changed: false,
        ..tab
    }
}

/// The update a successful save of `path` makes to its tab.
pub open spec fn saved_with(path: String, stamp: Option<DiskStamp>) -> spec_fn(Tab) -> Tab {
    |t: Tab| saved_tab(t, path, stamp)
}

/// The update that flags a tab as changed on disk.
pub open spec fn flag_external() -> spec_fn(Tab) -> Tab {
    |t: Tab| Tab { externally_changed: true, ..t }
}

/// Whether an id is other than `id`.
pub open spec fn other_than(id: u64) -> spec_fn(u64) -> bool {
    |x: u64| x != id
}

/// `tabs` with the first tab with id `id` replaced through `f`.
pub open spec fn update_first(tabs: Seq<Tab>, id: u64, f: spec_fn(Tab) -> Tab) -> Seq<Tab> {
    match find_id(tabs, id) {
        Some(i) => tabs.update(i, f(tabs[i])),
        None => tabs,
    }
}

/// `ids` without its first `id`, the rest kept in order.
pub open spec fn removed_first(ids: Seq<u64>, id: u64) -> Seq<u64>
    decreases ids.len(),
{
    if ids.len() == 0 {
        ids
    } else if ids[0] == id {
        ids.drop_first()
    } else {
        seq![ids[0]] + removed_first(ids.drop_first(), id)
    }
}

/// Removing the first `id` is removing the one at its first position.
pub proof fn lemma_removed_first(ids: Seq<u64>, id: u64, pos: int)
    requires
        0 <= pos < ids.len(),
        ids[pos] == id,
        forall|j: int| 0 <= j < pos ==> ids[j] != id,
    ensures
        removed_first(ids, id) == ids.remove(pos),
    decreases pos,
{
    if pos > 0 {
        assert forall|j: int| 0 <= j < pos - 1 implies ids.drop_first()[j] != id by {
            assert(ids.drop_first()[j] == ids[j + 1]);
        }
        lemma_removed_first(ids.drop_first(), id, pos - 1);
        assert(seq![ids[0]] + ids.drop_first().remove(pos - 1) =~= ids.remove(pos));
    } else {
        assert(ids.drop_first() =~= ids.remove(0));
    }
}

/// The strip left by closing tab `i` of `tabs`: the rest, or, when it was
/// the only tab, one fresh untitled tab with id `next_id`. Closing makes
/// the last tab active when the active index falls off the end.
pub open spec fn closed_strip(tabs: Seq<Tab>, i: int, active: usize, next_id: u64, final_tabs: Seq<Tab>, final_active: usize, final_next: u64) -> bool {
    let rest = tabs.remove(i);
    if rest.len() == 0 {
        &&& final_tabs.len() == 1
        &&& final_tabs[0].id == next_id
        &&& final_tabs[0].document.path is None
        &&& !final_tabs[0].dirty
        &&& final_tabs[0].text@ == Seq::<char>::empty()
        &&& final_active == 0
        &&& final_next == next_id + 1
    } else {
        &&& final_tabs == rest
        &&& final_next == next_id
        &&& final_active == if active >= rest.len() { (rest.len() - 1) as usize } else { active }
    }
}

/// Whether `m` is a prompt the queues could bring up: the unsaved-changes
/// prompt (focus on Save) for a queued close, or the save-conflict prompt
/// (focus on Cancel) for a queued conflict.
pub open spec fn queued_prompt(m: Modal, close_queue: Seq<u64>, conflict_queue: Seq<u64>) -> bool {
    ||| (m.kind == ModalKind::Close && m.focused == 0 && close_queue.contains(m.tab_id))
    ||| (m.kind == ModalKind::SaveConflict && m.focused == 2 && conflict_queue.contains(m.tab_id))
}

/// The part of the strip the dialog queues drive: its tabs, the active
/// index, the next fresh id, the dialog up and both queues.
pub struct StripModel {
    pub tabs: Seq<Tab>,
    pub active: usize,
    pub next_id: u64,
    pub modal: Option<Modal>,
    pub close_queue: Seq<u64>,
    pub conflict_queue: Seq<u64>,
}

/// Whether `m` is the unsaved-changes prompt for `tab`, focus on Save.
pub open spec fn is_close_prompt(m: Modal, tab: Tab) -> bool {
    &&& m.kind == ModalKind::Close
    &&& m.tab_id == tab.id
    &&& m.focused == 0
    &&& m.title@ == crate::tab::display_name_spec(path_view(tab.document.path))
}

/// Whether `m` is the save-conflict prompt for tab `id`, focus on Cancel.
pub open spec fn is_conflict_prompt(m: Modal, id: u64) -> bool {
    &&& m.kind == ModalKind::SaveConflict
    &&& m.tab_id == id
    &&& m.focused == 2
}

/// Whether draining has stopped at `s`: a dialog is up, or nothing waits.
pub open spec fn drain_settled(s: StripModel) -> bool {
    s.modal is Some || (s.close_queue.len() == 0 && s.conflict_queue.len() == 0)
}

/// The tab a close from `a` to `b` made active by moving the active index
/// back (the active tab was the last of several), if it did.
pub open spec fn close_activation(a: StripModel, b: StripModel) -> Option<u64> {
    if a.tabs.len() > 1 && a.active + 1 >= a.tabs.len() {
        Some(b.tabs[b.active as int].id)
    } else {
        None
    }
}

/// One step of draining the dialog queues, from `a` (no dialog up) to `b`,
/// closing the tab `closed` names, if any, along with the tab that close
/// made active. The first queued close goes
/// first: a tab no longer open is skipped, a clean one closes as
/// [`closed_strip`] says, a dirty one gets its unsaved-changes prompt.
/// Conflicts come when no close waits: a tab no longer open is skipped, an
/// open one gets its save-conflict prompt.
pub open spec fn drain_step(a: StripModel, b: StripModel, closed: Option<(u64, Option<u64>)>) -> bool {
    &&& a.modal is None
    &&& if a.close_queue.len() > 0 {
        let id = a.close_queue[0];
        &&& b.close_queue == a.close_queue.drop_first()
        &&& b.conflict_queue == a.conflict_queue
        &&& match find_id(a.tabs, id) {
            None => closed is None && b.modal is None && b.tabs == a.tabs && b.active == a.active
                && b.next_id == a.next_id,
            Some(i) => if a.tabs[i].dirty {
                &&& closed is None
                &&& b.modal is Some
                &&& is_close_prompt(b.modal->0, a.tabs[i])
                &&& b.tabs == a.tabs
                &&& b.active == a.active
                &&& b.next_id == a.next_id
            } else {
                &&& closed == Some((id, close_activation(a, b)))
                &&& b.modal is None
                &&& closed_strip(a.tabs, i, a.active, a.next_id, b.tabs, b.active, b.next_id)
            },
        }
    } else {
        let id = a.conflict_queue[0];
        &&& a.conflict_queue.len() > 0
        &&& closed is None
        &&& b.close_queue == a.close_queue
        &&& b.conflict_queue == a.conflict_queue.drop_first()
        &&& b.tabs == a.tabs
        &&& b.active == a.active
        &&& b.next_id == a.next_id
        &&& match find_id(a.tabs, id) {
            None => b.modal is None,
            Some(_) => b.modal is Some && is_conflict_prompt(b.modal->0, id),
        }
    }
}

/// The ids a run of drain steps closed, in order.
pub open spec fn closed_ids(steps: Seq<Option<(u64, Option<u64>)>>) -> Seq<u64>
    decreases steps.len(),
{
    if steps.len() == 0 {
        Seq::empty()
    } else {
        match steps.last() {
            Some(p) => closed_ids(steps.drop_last()).push(p.0),
            None => closed_ids(steps.drop_last()),
        }
    }
}

/// For each close of a run of drain steps, in order, the tab it made
/// active, if it moved the active index.
pub open spec fn drain_activations(steps: Seq<Option<(u64, Option<u64>)>>) -> Seq<Option<u64>>
    decreases steps.len(),
{
    if steps.len() == 0 {
        Seq::empty()
    } else {
        match steps.last() {
            Some(p) => drain_activations(steps.drop_last()).push(p.1),
            None => drain_activations(steps.drop_last()),
        }
    }
}

/// `trace` runs the drain from `s` to `fin`, one [`drain_step`] at a time,
/// stopping at the first settled state; `steps` says what each step closed,
/// and `closed` is those ids in order.
pub open spec fn drain_trace(trace: Seq<StripModel>, steps: Seq<Option<(u64, Option<u64>)>>, s: StripModel, closed: Seq<u64>, fin: StripModel) -> bool {
    &&& trace.len() == steps.len() + 1
    &&& trace[0] == s
    &&& trace.last() == fin
    &&& drain_settled(fin)
    &&& forall|k: int| 0 <= k < steps.len() ==> drain_step(#[trigger] trace[k], trace[k + 1], steps[k])
    &&& closed == closed_ids(steps)
}

/// A drain trace grows by one step.
proof fn lemma_extend_trace(trace: Seq<StripModel>, steps: Seq<Option<(u64, Option<u64>)>>, next: StripModel, step: Option<(u64, Option<u64>)>)
    requires
        trace.len() == steps.len() + 1,
        forall|k: int| 0 <= k < steps.len() ==> drain_step(#[trigger] trace[k], trace[k + 1], steps[k]),
        drain_step(trace.last(), next, step),
    ensures
        forall|k: int| 0 <= k < steps.push(step).len() ==>
            drain_step(#[trigger] trace.push(next)[k], trace.push(next)[k + 1], steps.push(step)[k]),
        closed_ids(steps.push(step)) == match step {
            Some(p) => closed_ids(steps).push(p.0),
            None => closed_ids(steps),
        },
        drain_activations(steps.push(step)) == match step {
            Some(p) => drain_activations(steps).push(p.1),
            None => drain_activations(steps),
        },
{
    let t = trace.push(next);
    let st = steps.push(step);
    assert forall|k: int| 0 <= k < st.len() implies drain_step(#[trigger] t[k], t[k + 1], st[k]) by {
        if k < steps.len() {
            assert(t[k] == trace[k]);
            assert(t[k + 1] == trace[k + 1]);
            assert(st[k] == steps[k]);
        } else {
            assert(t[k] == trace.last());
        }
    }
    assert(st.drop_last() =~= steps);
}

/// A run of drain steps names one activation per close.
pub proof fn lemma_activations_match(steps: Seq<Option<(u64, Option<u64>)>>)
    ensures
        drain_activations(steps).len() == closed_ids(steps).len(),
    decreases steps.len(),
{
    if steps.len() > 0 {
        lemma_activations_match(steps.drop_last());
    }
}

/// Draining the dialog queues from `s` closes the tabs `closed`, in order,
/// and ends at `fin`: the queues are worked through head first, as
/// [`drain_step`] says, until a dialog is up or nothing waits.
pub open spec fn drains(s: StripModel, closed: Seq<u64>, fin: StripModel) -> bool {
    exists|trace: Seq<StripModel>, steps: Seq<Option<(u64, Option<u64>)>>| #[trigger] drain_trace(trace, steps, s, closed, fin)
}

/// [`drains`], with `activated` naming, for each tab closed, the tab that
/// close made active, if it moved the active index.
pub open spec fn drains_activating(s: StripModel, closed: Seq<u64>, activated: Seq<Option<u64>>, fin: StripModel) -> bool {
    exists|trace: Seq<StripModel>, steps: Seq<Option<(u64, Option<u64>)>>| #[trigger] drain_trace(trace, steps, s, closed, fin)
        && activated == drain_activations(steps)
}

/// A drain names one activation per tab it closed.
pub proof fn lemma_drains_activating_lengths(s: StripModel, closed: Seq<u64>, acts: Seq<Option<u64>>, fin: StripModel)
    requires
        drains_activating(s, closed, acts, fin),
    ensures
        closed.len() == acts.len(),
{
    let (t, st) = choose|t: Seq<StripModel>, st: Seq<Option<(u64, Option<u64>)>>|
        #[trigger] drain_trace(t, st, s, closed, fin) && acts == drain_activations(st);
    lemma_activations_match(st);
}

/// A closing prompt's answer names one activation per tab it closed.
pub proof fn lemma_close_confirmed_acts(old: &Workspace, new: &Workspace, id: u64, decision: CloseDecision, asks: bool,
    plan: Option<SavePlan>, closed: Seq<u64>, acts: Seq<Option<u64>>)
    requires
        new.close_confirmed_from(old, id, decision, asks, plan, closed, acts),
    ensures
        closed.len() == acts.len(),
{
    reveal(Workspace::close_confirmed_from);
    if decision == CloseDecision::DontSave {
        let mid = choose|mid: Workspace| #[trigger] Workspace::next_modal_spec(mid, *new) && {
            &&& drains_activating(mid.strip(),
                if find_id(old.tabs@, id) is Some { closed.drop_first() } else { closed },
                if find_id(old.tabs@, id) is Some { acts.drop_first() } else { acts },
                new.strip())
            &&& (find_id(old.tabs@, id) is Some ==> acts.len() > 0 && closed.contains(id))
        };
        assert(mid.strip() == mid.strip());
        if find_id(old.tabs@, id) is Some {
            lemma_drains_activating_lengths(mid.strip(), closed.drop_first(), acts.drop_first(), new.strip());
        } else {
            lemma_drains_activating_lengths(mid.strip(), closed, acts, new.strip());
        }
    } else {
        lemma_drains_activating_lengths(Workspace { modal: None, ..*old }.strip(), closed, acts, new.strip());
    }
}

/// A conflict prompt's answer names one activation per tab it closed.
pub proof fn lemma_conflict_resolved_acts(old: &Workspace, new: &Workspace, id: u64, decision: ConflictDecision,
    action: ConflictAction, closed: Seq<u64>, acts: Seq<Option<u64>>)
    requires
        new.conflict_resolved_from(old, id, decision, action, closed, acts),
    ensures
        closed.len() == acts.len(),
{
    reveal(Workspace::conflict_resolved_from);
    lemma_drains_activating_lengths(Workspace { modal: None, ..*old }.strip(), closed, acts, new.strip());
}

/// Asking to close a clean tab closes it, and the answer names it: the
/// strip loses that tab, or, when it was the only one, holds one fresh
/// untitled tab instead. Asking to close a dirty tab closes nothing.
pub proof fn lemma_clean_close_request_closes(new: Workspace, old: Workspace, index: usize, request: CloseRequest)
    requires
        old.wf(),
        new.close_requested_from(&old, index, request),
        index < old.tabs@.len(),
    ensures
        !old.tabs@[index as int].dirty ==> request == CloseRequest::Closed(old.tabs@[index as int].id),
        !old.tabs@[index as int].dirty && old.tabs@.len() > 1 ==> new.tabs@ == old.tabs@.remove(index as int),
        !old.tabs@[index as int].dirty && old.tabs@.len() == 1 ==> {
            &&& new.tabs@.len() == 1
            &&& new.tabs@[0].id == old.next_id
            &&& !new.tabs@[0].dirty
            &&& new.tabs@[0].document.path is None
        },
        !old.tabs@[index as int].dirty ==> forall|j: int| 0 <= j < new.tabs@.len() ==>
            #[trigger] new.tabs@[j].id != old.tabs@[index as int].id || exists|k: int| 0 <= k < old.tabs@.len()
                && k != index && old.tabs@[k].id == old.tabs@[index as int].id,
        old.tabs@[index as int].dirty ==> new.tabs@ == old.tabs@ && request != CloseRequest::Closed(old.tabs@[index as int].id),
{
    if !old.tabs@[index as int].dirty {
        let id = old.tabs@[index as int].id;
        if old.tabs@.len() > 1 {
            let rest = old.tabs@.remove(index as int);
            assert forall|j: int| 0 <= j < new.tabs@.len() implies
                #[trigger] new.tabs@[j].id != id || exists|k: int| 0 <= k < old.tabs@.len()
                    && k != index && old.tabs@[k].id == id by {
                if new.tabs@[j].id == id {
                    let k = if j < index { j } else { j + 1 };
                    assert(new.tabs@[j] == old.tabs@[k]);
                }
            }
        } else {
            assert forall|j: int| 0 <= j < new.tabs@.len() implies
                #[trigger] new.tabs@[j].id != id || exists|k: int| 0 <= k < old.tabs@.len()
                    && k != index && old.tabs@[k].id == id by {
                assert(j == 0);
                assert(id < old.next_id);
            }
        }
    }
}

/// The paths of the tabs in `tabs` that have a file, in order.
pub open spec fn file_paths_spec(tabs: Seq<Tab>) -> Seq<Seq<char>>
    decreases tabs.len(),
{
    if tabs.len() == 0 {
        Seq::empty()
    } else {
        match path_view(tabs.last().document.path) {
            Some(p) => file_paths_spec(tabs.drop_last()).push(p),
            None => file_paths_spec(tabs.drop_last()),
        }
    }
}

/// Whether the first tab with id `id` exists and has unsaved changes.
pub open spec fn dirty_tab(tabs: Seq<Tab>, id: u64) -> bool {
    find_id(tabs, id) matches Some(i) && tabs[i].dirty
}

/// The tab strip and its dialogs.
pub struct Workspace {
    pub tabs: Vec<Tab>,
    pub active: usize,
    pub next_id: u64,
    /// The dialog currently shown, if any.
    pub modal: Option<Modal>,
    /// Tab ids that asked to close while a dialog was already showing.
    pub close_queue: Vec<u64>,
    /// Tab ids whose save-conflict prompt waits for the dialog to free up.
    pub conflict_queue: Vec<u64>,
    /// Tab ids waiting on a save before they close.
    pub pending_close_after_save: Vec<u64>,
    /// The tab that was active just before the current one.
    pub previous_active_id: Option<u64>,
    /// Whether a file dialog is up.
    pub file_dialog_active: bool,
}

impl Workspace {
    /// The strip's invariant: at least one tab, the active index in range,
    /// every id below `next_id` (so new ids are fresh), and a dialog's focus
    /// on one of its three choices.
    pub open spec fn wf(&self) -> bool {
        &&& self.tabs@.len() > 0
        &&& self.active < self.tabs@.len()
        &&& forall|i: int| 0 <= i < self.tabs@.len() ==> #[trigger] self.tabs@[i].id < self.next_id
        &&& self.modal matches Some(m) ==> m.focused < 3
    }

    /// A strip holding one untitled tab, id 0.
    pub fn new() -> (ws: Self)
        ensures
            ws.wf(),
            ws.tabs@.len() == 1,
            ws.tabs@[0].id == 0,
            ws.tabs@[0].document.path is None,
            !ws.tabs@[0].dirty,
            ws.tabs@[0].text@ == Seq::<char>::empty(),
            is_fresh(&ws.tabs@[0]),
            ws.active == 0,
            ws.next_id == 1,
            ws.modal is None,
            ws.close_queue@.len() == 0,
            ws.conflict_queue@.len() == 0,
            ws.pending_close_after_save@.len() == 0,
            ws.previous_active_id is None,
            !ws.file_dialog_active,
    {
        let mut tabs = Vec::new();
        tabs.push(Tab::untitled(0));
        Workspace {
            tabs,
            active: 0,
            next_id: 1,
            modal: None,
            close_queue: Vec::new(),
            conflict_queue: Vec::new(),
            pending_close_after_save: Vec::new(),
            previous_active_id: None,
            file_dialog_active: false,
        }
    }

    /// The paths of the tabs that have a file, in tab order: what the
    /// document watcher watches.
    pub fn file_paths(&self) -> (paths: Vec<String>)
        ensures
            paths@.map_values(|p: String| p@) == file_paths_spec(self.tabs@),
    {
        let mut paths: Vec<String> = Vec::new();
        let mut i: usize = 0;
        while i < self.tabs.len()
            invariant
                i <= self.tabs@.len(),
                paths@.map_values(|p: String| p@) == file_paths_spec(self.tabs@.take(i as int)),
            decreases self.tabs@.len() - i,
        {
            assert(self.tabs@.take(i + 1).drop_last() =~= self.tabs@.take(i as int));
            let ghost before = paths@;
            match &self.tabs[i].document.path {
                Some(path) => {
                    paths.push(path.clone());
                    assert(paths@.map_values(|p: String| p@) =~= before.map_values(|p: String| p@).push(path@));
                },
                None => {},
            }
            i = i + 1;
        }
        assert(self.tabs@.take(self.tabs@.len() as int) =~= self.tabs@);
        paths
    }

    /// The first tab with id `id`.
    pub fn index_of_id(&self, id: u64) -> (index: Option<usize>)
        ensures
            match index {
                Some(i) => find_id(self.tabs@, id) == Some(i as int),
                None => find_id(self.tabs@, id) is None,
            },
            match index {
                Some(i) => i < self.tabs@.len() && self.tabs@[i as int].id == id
                    && forall|j: int| 0 <= j < i ==> #[trigger] self.tabs@[j].id != id,
                None => forall|j: int| 0 <= j < self.tabs@.len() ==> #[trigger] self.tabs@[j].id != id,
            },
    {
        let mut i: usize = 0;
        while i < self.tabs.len()
            invariant
                0 <= i <= self.tabs@.len(),
                forall|j: int| 0 <= j < i ==> #[trigger] self.tabs@[j].id != id,
            decreases self.tabs@.len() - i,
        {
            if self.tabs[i].id == id {
                proof {
                    lemma_find_id(self.tabs@, id);
                }
                return Some(i);
            }
            i = i + 1;
        }
        proof {
            lemma_find_id(self.tabs@, id);
        }
        None
    }

    /// The first tab already showing `path`.
    pub fn tab_index_for(&self, path: &str) -> (index: Option<usize>)
        ensures
            match index {
                Some(i) => i < self.tabs@.len() && path_view(self.tabs@[i as int].document.path) == Some(path@)
                    && forall|j: int| 0 <= j < i ==> path_view(#[trigger] self.tabs@[j].document.path) != Some(path@),
                None => forall|j: int| 0 <= j < self.tabs@.len() ==> path_view(#[trigger] self.tabs@[j].document.path) != Some(path@),
            },
    {
        let mut i: usize = 0;
        while i < self.tabs.len()
            invariant
                0 <= i <= self.tabs@.len(),
                forall|j: int| 0 <= j < i ==> path_view(#[trigger] self.tabs@[j].document.path) != Some(path@),
            decreases self.tabs@.len() - i,
        {
            if let Some(p) = &self.tabs[i].document.path {
                if crate::paths::same_text(p.as_str(), path) {
                    return Some(i);
                }
            }
            i = i + 1;
        }
        None
    }

    /// The tab with id `id`, but only while it still shows `path`: an
    /// asynchronous read that lands after a Save As retargeted the tab
    /// belongs to a file the tab no longer shows.
    pub fn tab_index_holding(&self, id: u64, path: &str) -> (index: Option<usize>)
        ensures
            match index {
                Some(i) => i < self.tabs@.len() && self.tabs@[i as int].id == id
                    && path_view(self.tabs@[i as int].document.path) == Some(path@)
                    && forall|j: int| 0 <= j < i ==> !(#[trigger] self.tabs@[j].id == id
                        && path_view(self.tabs@[j].document.path) == Some(path@)),
                None => forall|j: int| 0 <= j < self.tabs@.len() ==> !(#[trigger] self.tabs@[j].id == id
                    && path_view(self.tabs@[j].document.path) == Some(path@)),
            },
    {
        let mut i: usize = 0;
        while i < self.tabs.len()
            invariant
                0 <= i <= self.tabs@.len(),
                forall|j: int| 0 <= j < i ==> !(#[trigger] self.tabs@[j].id == id
                    && path_view(self.tabs@[j].document.path) == Some(path@)),
            decreases self.tabs@.len() - i,
        {
            if self.tabs[i].id == id {
                if let Some(p) = &self.tabs[i].document.path {
                    if crate::paths::same_text(p.as_str(), path) {
                        return Some(i);
                    }
                }
            }
            i = i + 1;
        }
        None
    }

    /// Everything but the tabs, the active index and the previous-active
    /// id is as in `other`.
    pub open spec fn rest_same(&self, other: &Self) -> bool {
        &&& self.next_id == other.next_id
        &&& self.modal == other.modal
        &&& self.close_queue@ == other.close_queue@
        &&& self.conflict_queue@ == other.conflict_queue@
        &&& self.pending_close_after_save@ == other.pending_close_after_save@
        &&& self.file_dialog_active == other.file_dialog_active
    }

    /// Nothing changed.
    pub open spec fn unchanged(&self, other: &Self) -> bool {
        &&& self.rest_same(other)
        &&& self.tabs@ == other.tabs@
        &&& self.active == other.active
        &&& self.previous_active_id == other.previous_active_id
    }

    /// `tabs` with the tab at `at` given the caret's cursor and selection.
    pub open spec fn with_caret(tabs: Seq<Tab>, at: int, caret: Caret) -> Seq<Tab> {
        tabs.update(at, Tab { last_cursor: caret.cursor, last_selection: caret.selection, ..tabs[at] })
    }

    /// `self` is `old` after a request to make tab `index` active, with `caret` for the outgoing tab, answered `switched`.
    pub open spec fn switched_from(&self, old: &Self, index: usize, caret: Caret, switched: bool) -> bool {
        &&& switched == (index < old.tabs@.len() && index != old.active)
        &&& switched ==> {
            &&& self.active == index
            &&& self.previous_active_id == Some(old.tabs@[old.active as int].id)
            &&& self.tabs@ =~= Self::with_caret(old.tabs@, old.active as int, caret)
            &&& self.rest_same(old)
        }
        &&& !switched ==> self.unchanged(old)
    }

    /// Makes tab `index` active. The outgoing tab keeps `caret` (its
    /// editor's cursor and selection) for when it is reselected, and becomes
    /// the previous-active tab. A no-op for an out-of-range index or the
    /// tab already active.
    pub fn switch_active(&mut self, index: usize, caret: Caret) -> (switched: bool)
        requires
            old(self).wf(),
        ensures
            final(self).wf(),
            final(self).switched_from(old(self), index, caret, switched),
    {
        if index >= self.tabs.len() || index == self.active {
            return false;
        }
        let a = self.active;
        self.tabs[a].last_cursor = caret.cursor;
        self.tabs[a].last_selection = caret.selection;
        self.previous_active_id = Some(self.tabs[a].id);
        self.active = index;
        assert(self.tabs@ =~= Self::with_caret(old(self).tabs@, a as int, caret));
        true
    }

    /// `self` is `old` after moving the active tab by `delta`, with `caret` for the outgoing tab, answered `switched`.
    pub open spec fn cycled_from(&self, old: &Self, delta: isize, caret: Caret, switched: bool) -> bool {
        let target = ((old.active + delta) % (old.tabs@.len() as int)) as usize;
        &&& switched == (target != old.active)
        &&& self.active == target
        &&& switched ==> self.tabs@ =~= Self::with_caret(old.tabs@, old.active as int, caret)
            && self.previous_active_id == Some(old.tabs@[old.active as int].id)
            && self.rest_same(old)
        &&& !switched ==> self.unchanged(old)
    }

    /// Moves the active tab by `delta` positions, wrapping at either end.
    pub fn cycle_tab(&mut self, delta: isize, caret: Caret) -> (switched: bool)
        requires
            old(self).wf(),
            old(self).tabs@.len() <= isize::MAX,
            isize::MIN <= old(self).active + delta <= isize::MAX,
        ensures
            final(self).wf(),
            final(self).cycled_from(old(self), delta, caret, switched),
    {
        let next = crate::find_state::wrap_index(self.active as isize, delta, self.tabs.len());
        self.switch_active(next, caret)
    }

    /// `self` is `old` after opening a new untitled tab `id`, with `caret` for the outgoing tab.
    pub open spec fn new_tab_from(&self, old: &Self, caret: Caret, id: u64) -> bool {
        &&& id == old.next_id
        &&& self.next_id == old.next_id + 1
        &&& self.tabs@.len() == old.tabs@.len() + 1
        &&& self.tabs@.last().id == id
        &&& self.tabs@.last().document.path is None
        &&& !self.tabs@.last().dirty
        &&& self.tabs@.last().text@ =~= Seq::<char>::empty()
        &&& self.active == old.tabs@.len()
        &&& self.tabs@.drop_last() =~= Self::with_caret(old.tabs@, old.active as int, caret)
        &&& self.previous_active_id == Some(old.tabs@[old.active as int].id)
        &&& self.modal == old.modal
        &&& self.close_queue@ =~= old.close_queue@
        &&& self.conflict_queue@ =~= old.conflict_queue@
        &&& self.pending_close_after_save@ =~= old.pending_close_after_save@
        &&& self.file_dialog_active == old.file_dialog_active
    }

    /// Opens a new untitled tab with a fresh id and makes it active.
    pub fn new_tab(&mut self, caret: Caret) -> (id: u64)
        requires
            old(self).wf(),
            old(self).next_id < u64::MAX,
        ensures
            final(self).wf(),
            final(self).new_tab_from(old(self), caret, id),
    {
        let id = self.next_id;
        self.next_id = self.next_id + 1;
        let ghost before = self.tabs@;
        self.tabs.push(Tab::untitled(id));
        let index = self.tabs.len() - 1;
        self.switch_active(index, caret);
        assert(self.tabs@.drop_last() =~= Self::with_caret(before, old(self).active as int, caret));
        id
    }

    /// `self` is `old` after closing tab `index`, answered `closed`.
    pub open spec fn closed_from(&self, old: &Self, index: usize, closed: Option<u64>) -> bool {
        &&& index >= old.tabs@.len() ==> closed is None && self.unchanged(old)
        &&& index < old.tabs@.len() ==> {
            let rest = old.tabs@.remove(index as int);
            &&& closed == Some(old.tabs@[index as int].id)
            &&& self.previous_active_id == old.previous_active_id
            &&& self.modal == old.modal
            &&& self.close_queue@ =~= old.close_queue@
            &&& self.conflict_queue@ =~= old.conflict_queue@
            &&& self.pending_close_after_save@ =~= old.pending_close_after_save@
            &&& self.file_dialog_active == old.file_dialog_active
            &&& if rest.len() == 0 {
                &&& self.tabs@.len() == 1
                &&& self.tabs@[0].id == old.next_id
                &&& self.tabs@[0].document.path is None
                &&& !self.tabs@[0].dirty
                &&& self.tabs@[0].text@ =~= Seq::<char>::empty()
                &&& self.active == 0
                &&& self.next_id == old.next_id + 1
            } else {
                &&& self.tabs@ =~= rest
                &&& self.next_id == old.next_id
                &&& self.active == if old.active >= rest.len() {
                    (rest.len() - 1) as usize
                } else {
                    old.active
                }
            }
        }
    }

    /// Closes tab `index` outright, returning its id. A closed last tab is
    /// replaced by a fresh untitled one; when the active index falls off
    /// the end, the last tab becomes active.
    pub fn close_tab(&mut self, index: usize) -> (closed: Option<u64>)
        requires
            old(self).wf(),
            old(self).tabs@.len() == 1 ==> old(self).next_id < u64::MAX,
        ensures
            final(self).wf(),
            final(self).closed_from(old(self), index, closed),
    {
        if index >= self.tabs.len() {
            return None;
        }
        let closed = self.tabs.remove(index);
        if self.tabs.len() == 0 {
            let id = self.next_id;
            self.next_id = self.next_id + 1;
            self.tabs.push(Tab::untitled(id));
            self.active = 0;
        } else if self.active >= self.tabs.len() {
            self.active = self.tabs.len() - 1;
        }
        proof {
            assert forall|i: int| 0 <= i < self.tabs@.len() implies #[trigger] self.tabs@[i].id < self.next_id by {
                if old(self).tabs@.len() > 1 {
                    if i < index {
                        assert(self.tabs@[i] == old(self).tabs@[i]);
                    } else {
                        assert(self.tabs@[i] == old(self).tabs@[i + 1]);
                    }
                }
            }
        }
        Some(closed.id)
    }

    /// Makes the tab that was active before this one active again, if it is
    /// still open.
    pub fn select_previous_active(&mut self, caret: Caret) -> (switched: bool)
        requires
            old(self).wf(),
        ensures
            final(self).wf(),
            switched ==> (old(self).previous_active_id matches Some(id)
                && final(self).tabs@[final(self).active as int].id == id
                && final(self).tabs@ == Self::with_caret(old(self).tabs@, old(self).active as int, caret)
                && final(self).rest_same(old(self))),
            !switched ==> final(self).unchanged(old(self)),
            (old(self).previous_active_id matches Some(id) && exists|j: int| 0 <= j < old(self).tabs@.len()
                && #[trigger] old(self).tabs@[j].id == id && j != old(self).active
                && forall|k: int| 0 <= k < j ==> #[trigger] old(self).tabs@[k].id != id) ==> switched,
    {
        match self.previous_active_id {
            Some(id) => match self.index_of_id(id) {
                Some(index) => self.switch_active(index, caret),
                None => false,
            },
            None => false,
        }
    }

    /// `self` is `old` after a request to close tab `index`, answered `request`.
    pub open spec fn close_requested_from(&self, old: &Self, index: usize, request: CloseRequest) -> bool {
        &&& index >= old.tabs@.len() ==> request == CloseRequest::Ignored && self.unchanged(old)
        &&& index < old.tabs@.len() ==> {
            let tab = old.tabs@[index as int];
            if !tab.dirty {
                &&& request == CloseRequest::Closed(tab.id)
                &&& self.close_queue@ =~= old.close_queue@
                &&& self.modal == old.modal
                &&& self.next_id <= old.next_id + 1
                &&& self.closed_from(old, index, Some(tab.id))
            } else if old.modal is Some {
                &&& request == CloseRequest::Queued
                &&& self.close_queue@ =~= if old.close_queue@.contains(tab.id) {
                    old.close_queue@
                } else {
                    old.close_queue@.push(tab.id)
                }
                &&& self.tabs@ =~= old.tabs@
                &&& self.active == old.active
                &&& self.modal == old.modal
            } else {
                &&& request == CloseRequest::Prompted
                &&& (self.modal matches Some(m) && m.kind == ModalKind::Close && m.tab_id == tab.id
                    && m.focused == 0 && m.title@ =~= crate::tab::display_name_spec(path_view(tab.document.path)))
                &&& self.tabs@ =~= old.tabs@
                &&& self.active == old.active
                &&& self.close_queue@ =~= old.close_queue@
            }
        }
        &&& self.conflict_queue@ =~= old.conflict_queue@
        &&& self.pending_close_after_save@ =~= old.pending_close_after_save@
        &&& self.file_dialog_active == old.file_dialog_active
        &&& self.next_id <= old.next_id + 1
        &&& self.previous_active_id == old.previous_active_id
        &&& !(request is Closed) ==> self.next_id == old.next_id
    }

    /// Closes a clean tab immediately; a dirty one gets the unsaved-changes
    /// prompt first, or waits in the queue (once) while another dialog is up.
    pub fn request_close(&mut self, index: usize) -> (request: CloseRequest)
        requires
            old(self).wf(),
            old(self).tabs@.len() == 1 ==> old(self).next_id < u64::MAX,
        ensures
            final(self).wf(),
            final(self).close_requested_from(old(self), index, request),
    {
        if index >= self.tabs.len() {
            return CloseRequest::Ignored;
        }
        if !self.tabs[index].dirty {
            let closed = self.close_tab(index);
            return match closed {
                Some(id) => CloseRequest::Closed(id),
                None => CloseRequest::Ignored,
            };
        }
        let id = self.tabs[index].id;
        if self.modal.is_some() {
            if !contains_id(&self.close_queue, id) {
                self.close_queue.push(id);
            }
            return CloseRequest::Queued;
        }
        let title = self.tabs[index].document.display_name();
        self.modal = Some(Modal { kind: ModalKind::Close, tab_id: id, title, focused: 0 });
        CloseRequest::Prompted
    }

    /// Puts the save-conflict prompt up for tab `id`, or queues it (once)
    /// behind a dialog already showing. The prompt's focus starts on Cancel:
    /// both other choices destroy someone's work.
    pub fn open_conflict_prompt(&mut self, id: u64) -> (request: PromptRequest)
        requires
            old(self).wf(),
        ensures
            final(self).wf(),
            final(self).tabs@ == old(self).tabs@,
            final(self).active == old(self).active,
            final(self).next_id == old(self).next_id,
            final(self).previous_active_id == old(self).previous_active_id,
            final(self).close_queue@ == old(self).close_queue@,
            final(self).pending_close_after_save@ == old(self).pending_close_after_save@,
            final(self).file_dialog_active == old(self).file_dialog_active,
            (forall|j: int| 0 <= j < old(self).tabs@.len() ==> #[trigger] old(self).tabs@[j].id != id) ==> {
                &&& request == PromptRequest::Ignored
                &&& final(self).unchanged(old(self))
            },
            (exists|j: int| 0 <= j < old(self).tabs@.len() && #[trigger] old(self).tabs@[j].id == id) ==> {
                if old(self).modal is Some {
                    &&& request == PromptRequest::Queued
                    &&& final(self).modal == old(self).modal
                    &&& final(self).conflict_queue@ == if old(self).conflict_queue@.contains(id) {
                        old(self).conflict_queue@
                    } else {
                        old(self).conflict_queue@.push(id)
                    }
                } else {
                    &&& request == PromptRequest::Prompted
                    &&& (final(self).modal matches Some(m) && m.kind == ModalKind::SaveConflict && m.tab_id == id
                        && m.focused == 2)
                    &&& final(self).conflict_queue@ == old(self).conflict_queue@
                }
            },
    {
        let index = match self.index_of_id(id) {
            Some(index) => index,
            None => return PromptRequest::Ignored,
        };
        if self.modal.is_some() {
            if !contains_id(&self.conflict_queue, id) {
                self.conflict_queue.push(id);
            }
            return PromptRequest::Queued;
        }
        let title = self.tabs[index].document.display_name();
        self.modal = Some(Modal { kind: ModalKind::SaveConflict, tab_id: id, title, focused: 2 });
        PromptRequest::Prompted
    }

    /// `now` shows the unsaved-changes prompt for the first queued close of
    /// `old`, with that close taken off the queue and nothing else moved.
    pub open spec fn prompted_first_close(old: Workspace, now: Workspace) -> bool {
        &&& now.modal matches Some(m) && m.kind == ModalKind::Close && m.tab_id == old.close_queue@[0] && m.focused == 0
        &&& now.close_queue@ == old.close_queue@.drop_first()
        &&& now.conflict_queue@ == old.conflict_queue@
        &&& now.tabs@ == old.tabs@
        &&& now.active == old.active
    }

    /// `now` shows the save-conflict prompt for the first queued conflict of
    /// `old`, with that conflict taken off the queue and nothing else moved.
    pub open spec fn prompted_first_conflict(old: Workspace, now: Workspace) -> bool {
        &&& now.modal matches Some(m) && m.kind == ModalKind::SaveConflict && m.tab_id == old.conflict_queue@[0]
            && m.focused == 2
        &&& now.conflict_queue@ == old.conflict_queue@.drop_first()
        &&& now.close_queue@ == old.close_queue@
        &&& now.tabs@ == old.tabs@
        &&& now.active == old.active
    }

    /// What bringing up the next queued dialog does, from `old` with no
    /// dialog up, as far as it is decided by the queues' heads: whatever
    /// dialog comes up is one the queues asked for; with both queues empty
    /// none comes up and nothing moves; a first queued close of a dirty tab
    /// gets its prompt; with no queued close, a first queued conflict of an
    /// open tab gets its prompt.
    pub open spec fn next_modal_spec(old: Workspace, now: Workspace) -> bool {
        &&& now.modal matches Some(m) ==> queued_prompt(m, old.close_queue@, old.conflict_queue@)
        &&& old.close_queue@.len() == 0 && old.conflict_queue@.len() == 0 ==> now.modal is None
            && now.tabs@ == old.tabs@ && now.active == old.active
        &&& old.close_queue@.len() > 0 && dirty_tab(old.tabs@, old.close_queue@[0])
            ==> Self::prompted_first_close(old, now)
        &&& old.close_queue@.len() == 0 && old.conflict_queue@.len() > 0
            && find_id(old.tabs@, old.conflict_queue@[0]) is Some ==> Self::prompted_first_conflict(old, now)
    }

    /// The part of the strip the dialog queues drive.
    pub open spec fn strip(&self) -> StripModel {
        StripModel {
            tabs: self.tabs@,
            active: self.active,
            next_id: self.next_id,
            modal: self.modal,
            close_queue: self.close_queue@,
            conflict_queue: self.conflict_queue@,
        }
    }

    /// Shows whatever dialog waits behind the one just dismissed: close
    /// prompts first, then conflict prompts. Keeps draining until a dialog
    /// is actually up, since a queued tab may have closed or gone clean
    /// (and a clean one simply closes). Returns the ids of tabs closed on
    /// the way, and for each the tab its close made active, if it moved the
    /// active index.
    #[verifier::rlimit(40)]
    pub fn drain_queues(&mut self) -> (result: (Vec<u64>, Vec<Option<u64>>))
        requires
            old(self).wf(),
            old(self).next_id + old(self).close_queue@.len() <= u64::MAX,
        ensures
            final(self).wf(),
            final(self).modal is None ==> final(self).close_queue@.len() == 0 && final(self).conflict_queue@.len() == 0,
            old(self).modal is Some ==> final(self).unchanged(old(self)) && result.0@.len() == 0,
            final(self).pending_close_after_save@ == old(self).pending_close_after_save@,
            final(self).file_dialog_active == old(self).file_dialog_active,
            final(self).next_id <= old(self).next_id + old(self).close_queue@.len(),
            forall|k: int| 0 <= k < result.0@.len() ==> old(self).close_queue@.contains(#[trigger] result.0@[k]),
            old(self).modal is None ==> Self::next_modal_spec(*old(self), *final(self)),
            drains_activating(old(self).strip(), result.0@, result.1@, final(self).strip()),
            final(self).previous_active_id == old(self).previous_active_id,
    {
        let mut closed: Vec<u64> = Vec::new();
        let mut activated: Vec<Option<u64>> = Vec::new();
        let ghost mut trace: Seq<StripModel> = seq![self.strip()];
        let ghost mut steps: Seq<Option<(u64, Option<u64>)>> = Seq::empty();
        let ghost start_conflict = self.conflict_queue@;
        let ghost start_queue = self.close_queue@;
        let ghost start_next = self.next_id;
        while self.modal.is_none()
            invariant
                self.wf(),
                self.next_id + self.close_queue@.len() <= start_next + start_queue.len(),
                start_next + start_queue.len() <= u64::MAX,
                self.pending_close_after_save@ == old(self).pending_close_after_save@,
                self.file_dialog_active == old(self).file_dialog_active,
                forall|k: int| 0 <= k < self.close_queue@.len() ==> start_queue.contains(#[trigger] self.close_queue@[k]),
                forall|k: int| 0 <= k < closed@.len() ==> start_queue.contains(#[trigger] closed@[k]),
                old(self).modal is Some ==> self.unchanged(old(self)) && closed@.len() == 0,
                old(self).modal is Some ==> self.modal is Some,
                start_queue == old(self).close_queue@,
                start_conflict == old(self).conflict_queue@,
                self.close_queue@.len() <= start_queue.len(),
                self.close_queue@ == start_queue.skip(start_queue.len() - self.close_queue@.len()),
                self.conflict_queue@.len() <= start_conflict.len(),
                self.conflict_queue@ == start_conflict.skip(start_conflict.len() - self.conflict_queue@.len()),
                self.close_queue@.len() < start_queue.len() || self.conflict_queue@.len() < start_conflict.len()
                    || (self.tabs@ == old(self).tabs@ && self.modal == old(self).modal && self.active == old(self).active),
                self.close_queue@.len() > 0 ==> self.conflict_queue@ == start_conflict,
                old(self).modal is None ==> (self.modal matches Some(m) ==> queued_prompt(m, start_queue, start_conflict)),
                old(self).modal is None && start_queue.len() > 0 && dirty_tab(old(self).tabs@, start_queue[0])
                    && self.close_queue@.len() < start_queue.len() ==> Self::prompted_first_close(*old(self), *self),
                old(self).modal is None && start_queue.len() == 0 && start_conflict.len() > 0
                    && find_id(old(self).tabs@, start_conflict[0]) is Some
                    && self.conflict_queue@.len() < start_conflict.len() ==> Self::prompted_first_conflict(*old(self), *self),
                trace.len() == steps.len() + 1,
                trace[0] == old(self).strip(),
                trace.last() == self.strip(),
                forall|k: int| 0 <= k < steps.len() ==> drain_step(#[trigger] trace[k], trace[k + 1], steps[k]),
                closed@ == closed_ids(steps),
                activated@ == drain_activations(steps),
                self.previous_active_id == old(self).previous_active_id,
            ensures
                self.modal is None ==> self.close_queue@.len() == 0 && self.conflict_queue@.len() == 0,
            decreases self.close_queue@.len() + self.conflict_queue@.len(),
        {
            let ghost prev = self.strip();
            let ghost prev_closed = closed@;
            if self.close_queue.len() > 0 {
                let ghost q = self.close_queue@;
                let ghost untouched = q.len() == start_queue.len();
                let next_id = self.close_queue.remove(0);
                assert(q.contains(next_id));
                proof {
                    assert forall|k: int| 0 <= k < self.close_queue@.len() implies start_queue.contains(#[trigger] self.close_queue@[k]) by {
                        assert(self.close_queue@[k] == q[k + 1]);
                        assert(q.contains(q[k + 1]));
                    }
                    assert(self.close_queue@ =~= start_queue.skip(start_queue.len() - self.close_queue@.len()));
                    if untouched {
                        assert(q =~= start_queue);
                        assert(next_id == start_queue[0]);
                        assert(self.close_queue@ =~= start_queue.drop_first());
                    }
                    assert(q.contains(next_id) ==> start_queue.contains(next_id));
                }
                let ghost mut step: Option<(u64, Option<u64>)> = None;
                if let Some(index) = self.index_of_id(next_id) {
                    if self.tabs[index].dirty {
                        let _ = self.request_close(index);
                    } else {
                        let moves_back = self.tabs.len() > 1 && self.active >= self.tabs.len() - 1;
                        if let Some(id) = self.close_tab(index) {
                            let made_active = if moves_back { Some(self.tabs[self.active].id) } else { None };
                            closed.push(id);
                            activated.push(made_active);
                            proof {
                                assert(made_active == close_activation(prev, self.strip()));
                                step = Some((id, made_active));
                            }
                        }
                    }
                }
                proof {
                    assert(next_id == prev.close_queue[0]);
                    assert(self.close_queue@ =~= prev.close_queue.drop_first());
                    lemma_find_id(prev.tabs, next_id);
                    assert(drain_step(prev, self.strip(), step));
                    lemma_extend_trace(trace, steps, self.strip(), step);
                    trace = trace.push(self.strip());
                    steps = steps.push(step);
                    assert(closed@ =~= closed_ids(steps));
                    assert(activated@ =~= drain_activations(steps));
                }
                continue;
            }
            if self.conflict_queue.len() > 0 {
                let ghost q = self.conflict_queue@;
                let ghost untouched = q.len() == start_conflict.len();
                let next_id = self.conflict_queue.remove(0);
                proof {
                    assert(self.conflict_queue@ =~= start_conflict.skip(start_conflict.len() - self.conflict_queue@.len()));
                    assert(q.contains(next_id));
                    assert(start_conflict.contains(next_id));
                    if untouched {
                        assert(q =~= start_conflict);
                        assert(next_id == start_conflict[0]);
                        assert(self.conflict_queue@ =~= start_conflict.drop_first());
                        if start_queue.len() == 0 {
                            assert(self.close_queue@ =~= start_queue);
                        }
                    }
                    lemma_find_id(self.tabs@, next_id);
                    if let Some(i) = find_id(self.tabs@, next_id) {
                        assert(self.tabs@[i].id == next_id);
                    }
                }
                self.open_conflict_prompt(next_id);
                proof {
                    assert(next_id == prev.conflict_queue[0]);
                    assert(self.conflict_queue@ =~= prev.conflict_queue.drop_first());
                    lemma_find_id(prev.tabs, next_id);
                    if let Some(i) = find_id(prev.tabs, next_id) {
                        assert(prev.tabs[i].id == next_id);
                    }
                    assert(drain_step(prev, self.strip(), None));
                    lemma_extend_trace(trace, steps, self.strip(), None);
                    trace = trace.push(self.strip());
                    steps = steps.push(None);
                    assert(closed@ =~= closed_ids(steps));
                    assert(activated@ =~= drain_activations(steps));
                }
                continue;
            }
            break;
        }
        proof {
            assert(drain_trace(trace, steps, old(self).strip(), closed@, self.strip()));
        }
        (closed, activated)
    }

    /// Shows whatever dialog waits behind the one just dismissed: close
    /// prompts first, then conflict prompts. Keeps draining until a dialog
    /// is actually up, since a queued tab may have closed or gone clean
    /// (and a clean one simply closes). Returns the ids of tabs closed on
    /// the way.
    pub fn show_next_modal(&mut self) -> (closed: Vec<u64>)
        requires
            old(self).wf(),
            old(self).next_id + old(self).close_queue@.len() <= u64::MAX,
        ensures
            final(self).wf(),
            final(self).modal is None ==> final(self).close_queue@.len() == 0 && final(self).conflict_queue@.len() == 0,
            old(self).modal is Some ==> final(self).unchanged(old(self)) && closed@.len() == 0,
            final(self).pending_close_after_save@ == old(self).pending_close_after_save@,
            final(self).file_dialog_active == old(self).file_dialog_active,
            final(self).next_id <= old(self).next_id + old(self).close_queue@.len(),
            forall|k: int| 0 <= k < closed@.len() ==> old(self).close_queue@.contains(#[trigger] closed@[k]),
            old(self).modal is None ==> Self::next_modal_spec(*old(self), *final(self)),
            drains(old(self).strip(), closed@, final(self).strip()),
            final(self).previous_active_id == old(self).previous_active_id,
    {
        let (closed, _) = self.drain_queues();
        closed
    }

    /// `self` is `old` after key `key` reached the dialog, answered `outcome`.
    pub open spec fn modal_key_from(&self, old: &Self, key: ModalKey, outcome: ModalKeyOutcome) -> bool {
        &&& self.tabs@ =~= old.tabs@
        &&& self.active == old.active
        &&& self.previous_active_id == old.previous_active_id
        &&& self.next_id == old.next_id
        &&& self.close_queue@ =~= old.close_queue@
        &&& self.conflict_queue@ =~= old.conflict_queue@
        &&& self.pending_close_after_save@ =~= old.pending_close_after_save@
        &&& self.file_dialog_active == old.file_dialog_active
        &&& match old.modal {
            None => outcome == ModalKeyOutcome::NoModal && self.modal == old.modal,
            Some(m) => match key {
                ModalKey::Confirm => outcome == ModalKeyOutcome::Answered(resolve_spec(m.kind, m.tab_id, m.focused))
                    && self.modal == old.modal,
                ModalKey::Escape => outcome == ModalKeyOutcome::Answered(cancel_spec(m.kind, m.tab_id))
                    && self.modal == old.modal,
                _ => outcome == ModalKeyOutcome::Handled
                    && (self.modal matches Some(n) && n.kind == m.kind && n.tab_id == m.tab_id
                    && n.title@ =~= m.title@ && n.focused == moved_focus(m.focused, key)),
            },
        }
    }

    /// A key pressed while a dialog may be up: arrows and tab move the focus
    /// among the three choices, Enter or Space answers with the focused one,
    /// Escape cancels, and every other key is swallowed.
    pub fn modal_key(&mut self, key: ModalKey) -> (outcome: ModalKeyOutcome)
        requires
            old(self).wf(),
        ensures
            final(self).wf(),
            final(self).modal_key_from(old(self), key, outcome),
    {
        match &mut self.modal {
            None => ModalKeyOutcome::NoModal,
            Some(modal) => {
                match key {
                    ModalKey::Left | ModalKey::ShiftTab => {
                        modal.focused = (modal.focused + 2) % 3;
                        ModalKeyOutcome::Handled
                    },
                    ModalKey::Right | ModalKey::Tab => {
                        modal.focused = (modal.focused + 1) % 3;
                        ModalKeyOutcome::Handled
                    },
                    ModalKey::Confirm => ModalKeyOutcome::Answered(modal.resolve()),
                    ModalKey::Escape => ModalKeyOutcome::Answered(modal.cancel()),
                    ModalKey::Other => ModalKeyOutcome::Handled,
                }
            },
        }
    }

    /// What a save of `tab` should expect on disk: only an in-place write of
    /// a known file is checked, and only when the configuration `asks`.
    pub open spec fn save_expectation_spec(tab: Tab, shows_dialog: bool, asks: bool) -> SaveExpectation {
        if shows_dialog || !asks { SaveExpectation::Unchecked } else { SaveExpectation::Seen(tab.disk) }
    }

    /// Plans a save of tab `id`. A tab with no file, or a forced Save As,
    /// shows a dialog, and none starts while another file dialog is up.
    /// `asks` is whether the configuration asks before overwriting an
    /// external change.
    pub fn begin_save(&mut self, id: u64, force_dialog: bool, asks: bool) -> (plan: Option<SavePlan>)
        requires
            old(self).wf(),
        ensures
            final(self).wf(),
            final(self).tabs@ == old(self).tabs@,
            final(self).active == old(self).active,
            final(self).previous_active_id == old(self).previous_active_id,
            final(self).next_id == old(self).next_id,
            final(self).modal == old(self).modal,
            final(self).close_queue@ == old(self).close_queue@,
            final(self).conflict_queue@ == old(self).conflict_queue@,
            final(self).pending_close_after_save@ == old(self).pending_close_after_save@,
            (forall|j: int| 0 <= j < old(self).tabs@.len() ==> #[trigger] old(self).tabs@[j].id != id) ==> plan is None
                && final(self).file_dialog_active == old(self).file_dialog_active,
            plan matches Some(p) ==> p.id == id && p.force_dialog == force_dialog,
            forall|i: int| 0 <= i < old(self).tabs@.len() && #[trigger] old(self).tabs@[i].id == id
                && (forall|j: int| 0 <= j < i ==> #[trigger] old(self).tabs@[j].id != id) ==> {
                let tab = old(self).tabs@[i];
                let shows_dialog = force_dialog || tab.document.path is None;
                if shows_dialog && old(self).file_dialog_active {
                    plan is None && final(self).file_dialog_active
                } else {
                    &&& (plan matches Some(p) && p.id == id && path_view(p.existing_path) == path_view(tab.document.path)
                        && p.force_dialog == force_dialog
                        && p.expectation == Self::save_expectation_spec(tab, shows_dialog, asks))
                    &&& final(self).file_dialog_active == (old(self).file_dialog_active || shows_dialog)
                }
            },
    {
        let index = match self.index_of_id(id) {
            Some(index) => index,
            None => return None,
        };
        let shows_dialog = force_dialog || self.tabs[index].document.path.is_none();
        if shows_dialog {
            if self.file_dialog_active {
                return None;
            }
            self.file_dialog_active = true;
        }
        let existing_path = match &self.tabs[index].document.path {
            Some(p) => Some(p.clone()),
            None => None,
        };
        let expectation = if shows_dialog || !asks {
            SaveExpectation::Unchecked
        } else {
            SaveExpectation::Seen(self.tabs[index].disk)
        };
        Some(SavePlan { id, existing_path, force_dialog, expectation })
    }

    /// Removes every occurrence of `id` from the tabs waiting to close
    /// after their save.
    fn forget_pending_close(&mut self, id: u64)
        requires
            old(self).wf(),
        ensures
            final(self).wf(),
            final(self).pending_close_after_save@ == old(self).pending_close_after_save@.filter(other_than(id)),
            final(self).tabs@ == old(self).tabs@,
            final(self).active == old(self).active,
            final(self).previous_active_id == old(self).previous_active_id,
            final(self).next_id == old(self).next_id,
            final(self).modal == old(self).modal,
            final(self).close_queue@ == old(self).close_queue@,
            final(self).conflict_queue@ == old(self).conflict_queue@,
            final(self).file_dialog_active == old(self).file_dialog_active,
    {
        let mut old_ids: Vec<u64> = Vec::new();
        std::mem::swap(&mut old_ids, &mut self.pending_close_after_save);
        let mut kept: Vec<u64> = Vec::new();
        let mut i: usize = 0;
        while i < old_ids.len()
            invariant
                0 <= i <= old_ids@.len(),
                old_ids@ == old(self).pending_close_after_save@,
                kept@ == old_ids@.take(i as int).filter(other_than(id)),
            decreases old_ids@.len() - i,
        {
            let x = old_ids[i];
            proof {
                assert(old_ids@.take(i + 1).drop_last() =~= old_ids@.take(i as int));
                reveal_with_fuel(Seq::<u64>::filter, 1);
            }
            if x != id {
                kept.push(x);
            }
            i = i + 1;
        }
        assert(old_ids@.take(old_ids@.len() as int) =~= old_ids@);
        self.pending_close_after_save = kept;
    }

    /// `self` is `old` after a save of tab `id` finished with `outcome` and the strip answered `action`.
    pub open spec fn saved_from(&self, old: &Self, id: u64, outcome: SaveOutcome, action: SavedAction) -> bool {
        &&& match outcome {
            SaveOutcome::Saved { path, stamp } => {
                let updated = update_first(old.tabs@, id, saved_with(path, stamp));
                &&& !self.file_dialog_active
                &&& self.modal == old.modal
                &&& self.close_queue@ =~= old.close_queue@
                &&& self.conflict_queue@ =~= old.conflict_queue@
                &&& self.previous_active_id == old.previous_active_id
                &&& (!old.pending_close_after_save@.contains(id) || find_id(old.tabs@, id) is None)
                    ==> self.next_id == old.next_id && self.active == old.active
                &&& !old.pending_close_after_save@.contains(id) ==> {
                    &&& action == SavedAction::Nothing
                    &&& self.tabs@ =~= updated
                    &&& self.pending_close_after_save@ =~= old.pending_close_after_save@
                    &&& self.active == old.active
                }
                &&& old.pending_close_after_save@.contains(id) ==> {
                    &&& self.pending_close_after_save@.len() + 1 == old.pending_close_after_save@.len()
                    &&& self.pending_close_after_save@ =~= removed_first(old.pending_close_after_save@, id)
                    &&& (find_id(old.tabs@, id) matches Some(i) ==> closed_strip(updated, i, old.active,
                        old.next_id, self.tabs@, self.active, self.next_id))
                    &&& (find_id(old.tabs@, id) is Some ==> action == SavedAction::Closed(id))
                    &&& (find_id(old.tabs@, id) is None ==> action == SavedAction::Nothing
                        && self.tabs@ =~= updated)
                }
            },
            SaveOutcome::DialogClosed => {
                &&& action == SavedAction::Nothing
                &&& !self.file_dialog_active
                &&& self.pending_close_after_save@ =~= old.pending_close_after_save@.filter(other_than(id))
                &&& self.tabs@ =~= old.tabs@
                &&& self.modal == old.modal
                &&& self.close_queue@ =~= old.close_queue@
                &&& self.conflict_queue@ =~= old.conflict_queue@
                &&& self.active == old.active
                &&& self.next_id == old.next_id
                &&& self.previous_active_id == old.previous_active_id
            },
            SaveOutcome::Failed => {
                &&& action == SavedAction::Nothing
                &&& !self.file_dialog_active
                &&& self.pending_close_after_save@ =~= old.pending_close_after_save@.filter(other_than(id))
                &&& self.tabs@ =~= old.tabs@
                &&& self.modal == old.modal
                &&& self.close_queue@ =~= old.close_queue@
                &&& self.conflict_queue@ =~= old.conflict_queue@
                &&& self.active == old.active
                &&& self.next_id == old.next_id
                &&& self.previous_active_id == old.previous_active_id
            },
            SaveOutcome::Conflict => {
                &&& action == SavedAction::Prompt(if find_id(old.tabs@, id) is None {
                    PromptRequest::Ignored
                } else if old.modal is Some {
                    PromptRequest::Queued
                } else {
                    PromptRequest::Prompted
                })
                &&& self.previous_active_id == old.previous_active_id
                &&& self.file_dialog_active == old.file_dialog_active
                &&& self.pending_close_after_save@ =~= old.pending_close_after_save@.filter(other_than(id))
                &&& self.tabs@ =~= update_first(old.tabs@, id, flag_external())
                &&& self.active == old.active
                &&& self.next_id == old.next_id
                &&& self.close_queue@ =~= old.close_queue@
                &&& find_id(old.tabs@, id) is None ==> self.modal == old.modal
                    && self.conflict_queue@ =~= old.conflict_queue@
                &&& find_id(old.tabs@, id) is Some ==> if old.modal is Some {
                    &&& self.modal == old.modal
                    &&& self.conflict_queue@ =~= if old.conflict_queue@.contains(id) {
                        old.conflict_queue@
                    } else {
                        old.conflict_queue@.push(id)
                    }
                } else {
                    &&& (self.modal matches Some(m) && m.kind == ModalKind::SaveConflict && m.tab_id == id
                        && m.focused == 2)
                    &&& self.conflict_queue@ =~= old.conflict_queue@
                }
            },
        }
    }

    /// A save of tab `id` finished with `outcome`. A successful save
    /// retargets the tab to the path written, marks it clean and stamps it,
    /// and closes it if it was waiting on this save; a dismissed dialog or a
    /// failure cancels the close; a conflict flags the tab and asks.
    pub fn file_saved(&mut self, id: u64, outcome: SaveOutcome) -> (action: SavedAction)
        requires
            old(self).wf(),
            old(self).tabs@.len() == 1 ==> old(self).next_id < u64::MAX,
        ensures
            final(self).wf(),
            final(self).saved_from(old(self), id, outcome, action),
    {
        match outcome {
            SaveOutcome::Saved { path, stamp } => {
                self.file_dialog_active = false;
                let ghost updated = update_first(old(self).tabs@, id, saved_with(path, stamp));
                if let Some(index) = self.index_of_id(id) {
                    let ghost before = self.tabs@;
                    self.tabs[index].document.path = Some(path);
                    self.tabs[index].dirty = false;
                    self.tabs[index].disk = stamp;
                    self.tabs[index].externally_changed = false;
                    assert(self.tabs@ =~= updated);
                    proof {
                        lemma_find_id(old(self).tabs@, id);
                        lemma_find_id(self.tabs@, id);
                        assert(self.tabs@[index as int].id == id);
                        assert forall|j: int| 0 <= j < index implies #[trigger] self.tabs@[j].id != id by {
                            assert(self.tabs@[j] == old(self).tabs@[j]);
                        }
                    }
                } else {
                    assert(self.tabs@ == updated);
                }
                assert(self.tabs@ == updated);
                let mut pos: usize = 0;
                while pos < self.pending_close_after_save.len() && self.pending_close_after_save[pos] != id
                    invariant
                        0 <= pos <= self.pending_close_after_save@.len(),
                        forall|j: int| 0 <= j < pos ==> self.pending_close_after_save@[j] != id,
                    decreases self.pending_close_after_save@.len() - pos,
                {
                    pos = pos + 1;
                }
                proof {
                    if pos == self.pending_close_after_save@.len() {
                        assert(!self.pending_close_after_save@.contains(id));
                    } else {
                        assert(self.pending_close_after_save@[pos as int] == id);
                    }
                }
                if pos < self.pending_close_after_save.len() {
                    proof {
                        lemma_removed_first(self.pending_close_after_save@, id, pos as int);
                    }
                    self.pending_close_after_save.remove(pos);
                    if let Some(index) = self.index_of_id(id) {
                        if let Some(closed) = self.close_tab(index) {
                            return SavedAction::Closed(closed);
                        }
                    }
                }
                SavedAction::Nothing
            },
            SaveOutcome::DialogClosed => {
                self.file_dialog_active = false;
                self.forget_pending_close(id);
                SavedAction::Nothing
            },
            SaveOutcome::Failed => {
                self.file_dialog_active = false;
                self.forget_pending_close(id);
                SavedAction::Nothing
            },
            SaveOutcome::Conflict => {
                self.forget_pending_close(id);
                let ghost before = self.tabs@;
                if let Some(index) = self.index_of_id(id) {
                    self.tabs[index].externally_changed = true;
                }
                proof {
                    lemma_find_id(old(self).tabs@, id);
                    lemma_find_id(self.tabs@, id);
                    if find_id(old(self).tabs@, id) is Some {
                        let i = find_id(old(self).tabs@, id)->0;
                        assert(self.tabs@[i].id == id);
                    } else {
                        assert forall|j: int| 0 <= j < self.tabs@.len() implies #[trigger] self.tabs@[j].id != id by {
                            assert(self.tabs@[j] == old(self).tabs@[j]);
                        }
                    }
                }
                let request = self.open_conflict_prompt(id);
                SavedAction::Prompt(request)
            },
        }
    }

    /// `self` is `old` after the unsaved-changes prompt for tab `id` came back with `decision`, answered the save `plan`, the tabs `closed` and, for each, the tab its close made active (`acts`).
    #[verifier::opaque]
    pub open spec fn close_confirmed_from(&self, old: &Self, id: u64, decision: CloseDecision, asks: bool, plan: Option<SavePlan>, closed: Seq<u64>, acts: Seq<Option<u64>>) -> bool {
        &&& self.modal is None ==> self.close_queue@.len() == 0 && self.conflict_queue@.len() == 0
        &&& decision == CloseDecision::Cancel ==> plan is None
        &&& decision == CloseDecision::DontSave ==> plan is None
            && (find_id(old.tabs@, id) is Some ==> closed.contains(id))
        &&& decision == CloseDecision::Save ==> self.pending_close_after_save@ =~= old.pending_close_after_save@.push(id)
            && (plan matches Some(p) ==> p.id == id && !p.force_dialog)
        &&& decision == CloseDecision::Save ==> match find_id(old.tabs@, id) {
            Some(i) => {
                let tab = old.tabs@[i];
                let shows_dialog = tab.document.path is None;
                if shows_dialog && old.file_dialog_active {
                    plan is None
                } else {
                    plan matches Some(p) && p.id == id && path_view(p.existing_path) == path_view(tab.document.path)
                        && !p.force_dialog && p.expectation == Self::save_expectation_spec(tab, shows_dialog, asks)
                }
            },
            None => plan is None,
        }
        &&& decision != CloseDecision::Save ==> self.pending_close_after_save@ =~= old.pending_close_after_save@
        &&& self.modal matches Some(m) ==> queued_prompt(m, old.close_queue@, old.conflict_queue@)
        &&& old.close_queue@.len() == 0 && old.conflict_queue@.len() == 0 ==> self.modal is None
        &&& decision != CloseDecision::DontSave ==> Self::next_modal_spec(Workspace { modal: None, ..*old }, *self)
        &&& decision != CloseDecision::DontSave ==> drains(Workspace { modal: None, ..*old }.strip(), closed, self.strip())
        &&& decision != CloseDecision::DontSave ==> drains_activating(Workspace { modal: None, ..*old }.strip(), closed,
            acts, self.strip())
        &&& decision == CloseDecision::DontSave ==> exists|mid: Workspace| {
            &&& drains(mid.strip(), if find_id(old.tabs@, id) is Some { closed.drop_first() } else { closed },
                self.strip())
            &&& drains_activating(mid.strip(),
                if find_id(old.tabs@, id) is Some { closed.drop_first() } else { closed },
                if find_id(old.tabs@, id) is Some { acts.drop_first() } else { acts },
                self.strip())
            &&& (find_id(old.tabs@, id) is Some ==> acts.len() > 0
                && acts[0] == close_activation(Workspace { modal: None, ..*old }.strip(), mid.strip()))
            &&& mid.modal is None
            &&& mid.close_queue@ =~= old.close_queue@
            &&& mid.conflict_queue@ =~= old.conflict_queue@
            &&& (find_id(old.tabs@, id) matches Some(i) ==> closed_strip(old.tabs@, i, old.active,
                old.next_id, mid.tabs@, mid.active, mid.next_id))
            &&& (find_id(old.tabs@, id) is None ==> mid.tabs@ =~= old.tabs@ && mid.active == old.active)
            &&& #[trigger] Self::next_modal_spec(mid, *self)
        }
    }

    /// The unsaved-changes prompt for tab `id` came back with `decision`:
    /// the dialog closes; Don't Save closes the tab; Save plans its save
    /// (with the tab remembered as closing once saved); then whatever
    /// dialog waits comes up. Returns the save to run, if any, and the ids
    /// of tabs closed.
    /// Also returns, for each tab closed, the tab its close made active,
    /// if it moved the active index.
    pub fn close_confirmed_reporting(&mut self, id: u64, decision: CloseDecision, asks: bool) -> (result: (Option<SavePlan>, Vec<u64>, Vec<Option<u64>>))
        requires
            old(self).wf(),
            old(self).next_id + old(self).close_queue@.len() + 1 <= u64::MAX,
        ensures
            final(self).wf(),
            final(self).close_confirmed_from(old(self), id, decision, asks, result.0, result.1@, result.2@),
    {
        self.modal = None;
        let mut closed: Vec<u64> = Vec::new();
        let mut activated: Vec<Option<u64>> = Vec::new();
        let mut plan: Option<SavePlan> = None;
        match decision {
            CloseDecision::Cancel => {},
            CloseDecision::DontSave => {
                if let Some(index) = self.index_of_id(id) {
                    let ghost dismissed = self.strip();
                    let moves_back = self.tabs.len() > 1 && self.active >= self.tabs.len() - 1;
                    if let Some(c) = self.close_tab(index) {
                        let made_active = if moves_back { Some(self.tabs[self.active].id) } else { None };
                        closed.push(c);
                        activated.push(made_active);
                        assert(made_active == close_activation(dismissed, self.strip()));
                    }
                }
            },
            CloseDecision::Save => {
                self.pending_close_after_save.push(id);
                plan = self.begin_save(id, false, asks);
            },
        }
        let ghost before = closed@;
        let ghost before_acts = activated@;
        let ghost mid = *self;
        proof {
            lemma_find_id(old(self).tabs@, id);
        }
        let (more, more_acts) = self.drain_queues();
        proof {
            let (t, st) = choose|t: Seq<StripModel>, st: Seq<Option<(u64, Option<u64>)>>|
                #[trigger] drain_trace(t, st, mid.strip(), more@, self.strip()) && more_acts@ == drain_activations(st);
            lemma_activations_match(st);
        }
        let mut k: usize = 0;
        while k < more.len()
            invariant
                0 <= k <= more@.len(),
                more@.len() == more_acts@.len(),
                closed@ == before + more@.take(k as int),
                activated@ == before_acts + more_acts@.take(k as int),
            decreases more@.len() - k,
        {
            closed.push(more[k]);
            activated.push(more_acts[k]);
            assert(more@.take(k + 1) =~= more@.take(k as int).push(more@[k as int]));
            assert(more_acts@.take(k + 1) =~= more_acts@.take(k as int).push(more_acts@[k as int]));
            k = k + 1;
        }
        proof {
            if decision == CloseDecision::DontSave && find_id(old(self).tabs@, id) is Some {
                assert(before.len() == 1 && before[0] == id);
                assert(closed@[0] == id);
            }
            if decision == CloseDecision::DontSave {
                assert(Self::next_modal_spec(mid, *self));
                if find_id(old(self).tabs@, id) is Some {
                    assert(closed@.drop_first() =~= more@);
                    assert(activated@.drop_first() =~= more_acts@);
                } else {
                    assert(closed@ =~= more@);
                    assert(activated@ =~= more_acts@);
                }
            } else {
                assert(closed@ =~= more@);
                assert(activated@ =~= more_acts@);
                assert(mid.strip() == Workspace { modal: None, ..*old(self) }.strip());
                assert(mid.close_queue@ == old(self).close_queue@);
                assert(Self::next_modal_spec(Workspace { modal: None, ..*old(self) }, *self));
            }
        }
        proof {
            reveal(Workspace::close_confirmed_from);
        }
        (plan, closed, activated)
    }

    /// The unsaved-changes prompt for tab `id` came back with `decision`:
    /// the dialog closes; Don't Save closes the tab; Save plans its save
    /// (with the tab remembered as closing once saved); then whatever
    /// dialog waits comes up. Returns the save to run, if any, and the ids
    /// of tabs closed.
    pub fn close_confirmed(&mut self, id: u64, decision: CloseDecision, asks: bool) -> (result: (Option<SavePlan>, Vec<u64>))
        requires
            old(self).wf(),
            old(self).next_id + old(self).close_queue@.len() + 1 <= u64::MAX,
        ensures
            final(self).wf(),
            final(self).modal is None ==> final(self).close_queue@.len() == 0 && final(self).conflict_queue@.len() == 0,
            decision == CloseDecision::Cancel ==> result.0 is None,
            decision == CloseDecision::DontSave ==> result.0 is None
                && (find_id(old(self).tabs@, id) is Some ==> result.1@.contains(id)),
            decision == CloseDecision::Save ==> final(self).pending_close_after_save@ == old(self).pending_close_after_save@.push(id)
                && (result.0 matches Some(p) ==> p.id == id && !p.force_dialog),
            decision == CloseDecision::Save ==> match find_id(old(self).tabs@, id) {
                Some(i) => {
                    let tab = old(self).tabs@[i];
                    let shows_dialog = tab.document.path is None;
                    if shows_dialog && old(self).file_dialog_active {
                        result.0 is None
                    } else {
                        result.0 matches Some(p) && p.id == id && path_view(p.existing_path) == path_view(tab.document.path)
                            && !p.force_dialog && p.expectation == Self::save_expectation_spec(tab, shows_dialog, asks)
                    }
                },
                None => result.0 is None,
            },
            decision != CloseDecision::Save ==> final(self).pending_close_after_save@ == old(self).pending_close_after_save@,
            final(self).modal matches Some(m) ==> queued_prompt(m, old(self).close_queue@, old(self).conflict_queue@),
            old(self).close_queue@.len() == 0 && old(self).conflict_queue@.len() == 0 ==> final(self).modal is None,
            decision != CloseDecision::DontSave ==> Self::next_modal_spec(Workspace { modal: None, ..*old(self) }, *final(self)),
            decision != CloseDecision::DontSave ==> drains(Workspace { modal: None, ..*old(self) }.strip(), result.1@, final(self).strip()),
            decision == CloseDecision::DontSave ==> exists|mid: Workspace| {
                &&& drains(mid.strip(), if find_id(old(self).tabs@, id) is Some { result.1@.drop_first() } else { result.1@ },
                    final(self).strip())
                &&& mid.modal is None
                &&& mid.close_queue@ == old(self).close_queue@
                &&& mid.conflict_queue@ == old(self).conflict_queue@
                &&& (find_id(old(self).tabs@, id) matches Some(i) ==> closed_strip(old(self).tabs@, i, old(self).active,
                    old(self).next_id, mid.tabs@, mid.active, mid.next_id))
                &&& (find_id(old(self).tabs@, id) is None ==> mid.tabs@ == old(self).tabs@ && mid.active == old(self).active)
                &&& #[trigger] Self::next_modal_spec(mid, *final(self))
            },
    {
        let (plan, closed, _) = self.close_confirmed_reporting(id, decision, asks);
        proof {
            reveal(Workspace::close_confirmed_from);
        }
        (plan, closed)
    }

    /// `self` is `old` after the save-conflict prompt for tab `id` came back with `decision`, answered `action`, the tabs `closed` and, for each, the tab its close made active (`acts`).
    #[verifier::opaque]
    pub open spec fn conflict_resolved_from(&self, old: &Self, id: u64, decision: ConflictDecision, action: ConflictAction, closed: Seq<u64>, acts: Seq<Option<u64>>) -> bool {
        &&& self.modal is None ==> self.close_queue@.len() == 0 && self.conflict_queue@.len() == 0
        &&& self.pending_close_after_save@ =~= old.pending_close_after_save@
        &&& Self::next_modal_spec(Workspace { modal: None, ..*old }, *self)
        &&& drains(Workspace { modal: None, ..*old }.strip(), closed, self.strip())
        &&& drains_activating(Workspace { modal: None, ..*old }.strip(), closed, acts, self.strip())
        &&& match find_id(old.tabs@, id) {
            Some(i) => match old.tabs@[i].document.path {
                Some(path) => match decision {
                    ConflictDecision::Cancel => action is Nothing,
                    ConflictDecision::Overwrite => action matches ConflictAction::Overwrite { id: x, path: p }
                        && x == id && p@ =~= path@,
                    ConflictDecision::DiscardAndReload => action matches ConflictAction::Reload { id: x, path: p }
                        && x == id && p@ =~= path@,
                },
                None => action is Nothing,
            },
            None => action is Nothing,
        }
    }

    /// The save-conflict prompt for tab `id` came back with `decision`: the
    /// dialog closes; Overwrite saves again without the check; Discard &
    /// Reload re-reads the file; then whatever dialog waits comes up.
    /// Also returns, for each tab closed, the tab its close made active,
    /// if it moved the active index.
    pub fn conflict_resolved_reporting(&mut self, id: u64, decision: ConflictDecision) -> (result: (ConflictAction, Vec<u64>, Vec<Option<u64>>))
        requires
            old(self).wf(),
            old(self).next_id + old(self).close_queue@.len() <= u64::MAX,
        ensures
            final(self).wf(),
            final(self).conflict_resolved_from(old(self), id, decision, result.0, result.1@, result.2@),
    {
        self.modal = None;
        let action = match decision {
            ConflictDecision::Cancel => ConflictAction::Nothing,
            ConflictDecision::Overwrite | ConflictDecision::DiscardAndReload => {
                match self.index_of_id(id) {
                    Some(index) => match &self.tabs[index].document.path {
                        Some(path) => {
                            let path = path.clone();
                            if decision == ConflictDecision::Overwrite {
                                ConflictAction::Overwrite { id, path }
                            } else {
                                ConflictAction::Reload { id, path }
                            }
                        },
                        None => ConflictAction::Nothing,
                    },
                    None => ConflictAction::Nothing,
                }
            },
        };
        proof {
            lemma_find_id(old(self).tabs@, id);
        }
        let (closed, activated) = self.drain_queues();
        proof {
            reveal(Workspace::conflict_resolved_from);
        }
        (action, closed, activated)
    }

    /// The save-conflict prompt for tab `id` came back with `decision`: the
    /// dialog closes; Overwrite saves again without the check; Discard &
    /// Reload re-reads the file; then whatever dialog waits comes up.
    pub fn conflict_resolved(&mut self, id: u64, decision: ConflictDecision) -> (result: (ConflictAction, Vec<u64>))
        requires
            old(self).wf(),
            old(self).next_id + old(self).close_queue@.len() <= u64::MAX,
        ensures
            final(self).wf(),
            final(self).modal is None ==> final(self).close_queue@.len() == 0 && final(self).conflict_queue@.len() == 0,
            final(self).pending_close_after_save@ == old(self).pending_close_after_save@,
            Self::next_modal_spec(Workspace { modal: None, ..*old(self) }, *final(self)),
            drains(Workspace { modal: None, ..*old(self) }.strip(), result.1@, final(self).strip()),
            match find_id(old(self).tabs@, id) {
                Some(i) => match old(self).tabs@[i].document.path {
                    Some(path) => match decision {
                        ConflictDecision::Cancel => result.0 is Nothing,
                        ConflictDecision::Overwrite => result.0 matches ConflictAction::Overwrite { id: x, path: p }
                            && x == id && p@ == path@,
                        ConflictDecision::DiscardAndReload => result.0 matches ConflictAction::Reload { id: x, path: p }
                            && x == id && p@ == path@,
                    },
                    None => result.0 is Nothing,
                },
                None => result.0 is Nothing,
            },
    {
        let (action, closed, _) = self.conflict_resolved_reporting(id, decision);
        proof {
            reveal(Workspace::conflict_resolved_from);
        }
        (action, closed)
    }

    /// Starts the Open dialog, unless a file dialog is already up.
    pub fn begin_open(&mut self) -> (started: bool)
        ensures
            started == !old(self).file_dialog_active,
            final(self).file_dialog_active,
            final(self).tabs@ == old(self).tabs@,
            final(self).active == old(self).active,
            final(self).next_id == old(self).next_id,
            final(self).modal == old(self).modal,
    {
        if self.file_dialog_active {
            false
        } else {
            self.file_dialog_active = true;
            true
        }
    }

    /// The Open dialog finished without a file (dismissed, or the read
    /// failed).
    pub fn open_dialog_finished(&mut self)
        ensures
            !final(self).file_dialog_active,
            final(self).tabs@ == old(self).tabs@,
            final(self).active == old(self).active,
            final(self).next_id == old(self).next_id,
            final(self).modal == old(self).modal,
    {
        self.file_dialog_active = false;
    }

    /// The Open dialog produced `path`, read as `contents` and stamped
    /// `stamp`: it opens in a new tab, which becomes active.
    pub fn file_opened(&mut self, path: String, contents: &str, stamp: Option<DiskStamp>, caret: Caret) -> (index: usize)
        requires
            old(self).wf(),
            old(self).next_id < u64::MAX,
        ensures
            final(self).wf(),
            !final(self).file_dialog_active,
            index == old(self).tabs@.len(),
            final(self).active == index,
            final(self).next_id == old(self).next_id + 1,
            final(self).tabs@.len() == old(self).tabs@.len() + 1,
            final(self).tabs@.drop_last() == Self::with_caret(old(self).tabs@, old(self).active as int, caret),
            final(self).tabs@.last().id == old(self).next_id,
            path_view(final(self).tabs@.last().document.path) == Some(path@),
            final(self).tabs@.last().text@ == contents@,
            !final(self).tabs@.last().dirty,
            final(self).tabs@.last().disk == stamp,
    {
        self.file_dialog_active = false;
        let id = self.next_id;
        self.next_id = self.next_id + 1;
        let mut tab = Tab::from_file(id, path, contents);
        tab.disk = stamp;
        let ghost before = self.tabs@;
        self.tabs.push(tab);
        let index = self.tabs.len() - 1;
        self.switch_active(index, caret);
        assert(self.tabs@.drop_last() =~= Self::with_caret(before, old(self).active as int, caret));
        index
    }

    /// How opening a file changes the strip: an untouched scratch tab that
    /// is active is reused in place, keeping its id, every other tab kept;
    /// otherwise the file gets a new tab at the end, with a fresh id, the
    /// old tabs kept (the outgoing active tab keeping `caret`).
    pub open spec fn opened_in(old: Workspace, now: Workspace, caret: Caret) -> bool {
        &&& old.active_is_scratch() ==> {
            &&& now.active == old.active
            &&& now.tabs@.len() == old.tabs@.len()
            &&& now.tabs@[now.active as int].id == old.tabs@[old.active as int].id
            &&& forall|j: int| 0 <= j < old.tabs@.len() && j != old.active ==> #[trigger] now.tabs@[j] == old.tabs@[j]
            &&& now.next_id == old.next_id
        }
        &&& !old.active_is_scratch() ==> {
            &&& now.active == old.tabs@.len()
            &&& now.tabs@.drop_last() == Self::with_caret(old.tabs@, old.active as int, caret)
            &&& now.tabs@.last().id == old.next_id
            &&& now.next_id == old.next_id + 1
        }
    }

    /// Whether the active tab is an untouched scratch tab: no file, no
    /// edits, no text.
    pub open spec fn active_is_scratch(&self) -> bool {
        let tab = self.tabs@[self.active as int];
        tab.document.path is None && !tab.dirty && tab.text@.len() == 0
    }

    /// Opens an already-read file (dropped, or named on the command line).
    /// An untouched scratch tab is replaced in place, keeping its id, rather
    /// than left behind as a stray "Untitled"; otherwise the file opens in a
    /// new tab, which becomes active. Returns the file's tab index.
    pub fn open_loaded_file(&mut self, path: String, contents: &str, stamp: Option<DiskStamp>, caret: Caret) -> (index: usize)
        requires
            old(self).wf(),
            old(self).next_id < u64::MAX,
        ensures
            final(self).wf(),
            final(self).active == index,
            path_view(final(self).tabs@[index as int].document.path) == Some(path@),
            final(self).tabs@[index as int].text@ == contents@,
            !final(self).tabs@[index as int].dirty,
            final(self).tabs@[index as int].disk == stamp,
            is_fresh(&Tab { disk: None, ..final(self).tabs@[index as int] }),
            old(self).active_is_scratch() ==> {
                &&& index == old(self).active
                &&& final(self).tabs@.len() == old(self).tabs@.len()
                &&& final(self).tabs@[index as int].id == old(self).tabs@[index as int].id
                &&& forall|j: int| 0 <= j < old(self).tabs@.len() && j != index ==> #[trigger] final(self).tabs@[j] == old(self).tabs@[j]
                &&& final(self).next_id == old(self).next_id
            },
            !old(self).active_is_scratch() ==> {
                &&& index == old(self).tabs@.len()
                &&& final(self).tabs@.drop_last() == Self::with_caret(old(self).tabs@, old(self).active as int, caret)
                &&& final(self).tabs@.last().id == old(self).next_id
                &&& final(self).next_id == old(self).next_id + 1
            },
    {
        let a = self.active;
        let scratch = self.tabs[a].document.path.is_none() && !self.tabs[a].dirty && self.tabs[a].text.as_str().is_empty();
        if !scratch {
            let id = self.next_id;
            self.next_id = self.next_id + 1;
            let mut tab = Tab::from_file(id, path, contents);
            tab.disk = stamp;
            let ghost before = self.tabs@;
            self.tabs.push(tab);
            let index = self.tabs.len() - 1;
            self.switch_active(index, caret);
            assert(self.tabs@.drop_last() =~= Self::with_caret(before, old(self).active as int, caret));
            return index;
        }
        let id = self.tabs[a].id;
        let mut tab = Tab::from_file(id, path, contents);
        tab.disk = stamp;
        self.tabs.set(a, tab);
        a
    }

    /// What a sweep does to one tab, given its file's current stamp: no file
    /// or no change leaves it be; a vanished file leaves the tab open and
    /// dirty so the next save recreates it; a changed file flags a dirty tab
    /// (unsaved edits win) and leaves a clean one to be re-read.
    pub open spec fn swept_tab(tab: Tab, current: Option<DiskStamp>) -> Tab {
        if tab.document.path is None || current == tab.disk {
            tab
        } else if current is None {
            Tab { disk: None, dirty: true, draft_generation: (tab.draft_generation + 1) as u64, ..tab }
        } else if tab.dirty {
            Tab { externally_changed: true, ..tab }
        } else {
            tab
        }
    }

    /// The re-read a sweep asks for, for one tab: a clean file-backed tab
    /// whose file changed in place, as `(id, path, new stamp)`.
    pub open spec fn sweep_read(tab: Tab, current: Option<DiskStamp>) -> Option<(u64, Seq<char>, DiskStamp)> {
        match (tab.document.path, current) {
            (Some(path), Some(stamp)) => if current != tab.disk && !tab.dirty {
                Some((tab.id, path@, stamp))
            } else {
                None
            },
            _ => None,
        }
    }

    /// The re-reads a sweep asks for, in tab order.
    pub open spec fn sweep_reads(tabs: Seq<Tab>, current: Seq<Option<DiskStamp>>) -> Seq<(u64, Seq<char>, DiskStamp)>
        decreases tabs.len(),
    {
        if tabs.len() == 0 || current.len() < tabs.len() {
            Seq::empty()
        } else {
            let n = tabs.len() - 1;
            let earlier = Self::sweep_reads(tabs.drop_last(), current.take(n));
            match Self::sweep_read(tabs[n], current[n]) {
                Some(r) => earlier.push(r),
                None => earlier,
            }
        }
    }

    /// Applies the external-change rules to every file-backed tab, given
    /// each tab's current stamp (in tab order, as the caller stats them).
    /// Returns the re-reads to run, as `(id, path, stamp)`, and whether any
    /// file vanished (so the manifest needs writing).
    pub fn resolve_disk_changes(&mut self, current: &[Option<DiskStamp>]) -> (result: (Vec<(u64, String, DiskStamp)>, bool))
        requires
            old(self).wf(),
            current@.len() == old(self).tabs@.len(),
            forall|i: int| 0 <= i < old(self).tabs@.len() ==> #[trigger] old(self).tabs@[i].draft_generation < u64::MAX,
        ensures
            final(self).wf(),
            final(self).tabs@.len() == old(self).tabs@.len(),
            forall|i: int| 0 <= i < old(self).tabs@.len() ==> #[trigger] final(self).tabs@[i] == Self::swept_tab(old(self).tabs@[i], current@[i]),
            result.0@.map_values(|r: (u64, String, DiskStamp)| (r.0, r.1@, r.2)) == Self::sweep_reads(old(self).tabs@, current@),
            result.1 == exists|i: int| 0 <= i < old(self).tabs@.len() && (#[trigger] old(self).tabs@[i]).document.path is Some
                && current@[i] != old(self).tabs@[i].disk && current@[i] is None,
            final(self).active == old(self).active,
            final(self).rest_same(old(self)),
            final(self).previous_active_id == old(self).previous_active_id,
    {
        let mut reads: Vec<(u64, String, DiskStamp)> = Vec::new();
        let mut deleted_any = false;
        let mut i: usize = 0;
        while i < self.tabs.len()
            invariant
                0 <= i <= self.tabs@.len(),
                self.wf(),
                self.tabs@.len() == old(self).tabs@.len(),
                current@.len() == old(self).tabs@.len(),
                self.active == old(self).active,
                self.rest_same(old(self)),
                self.previous_active_id == old(self).previous_active_id,
                forall|j: int| 0 <= j < old(self).tabs@.len() ==> #[trigger] old(self).tabs@[j].draft_generation < u64::MAX,
                forall|j: int| 0 <= j < i ==> #[trigger] self.tabs@[j] == Self::swept_tab(old(self).tabs@[j], current@[j]),
                forall|j: int| i <= j < self.tabs@.len() ==> #[trigger] self.tabs@[j] == old(self).tabs@[j],
                reads@.map_values(|r: (u64, String, DiskStamp)| (r.0, r.1@, r.2)) == Self::sweep_reads(old(self).tabs@.take(i as int), current@.take(i as int)),
                deleted_any == exists|j: int| 0 <= j < i && (#[trigger] old(self).tabs@[j]).document.path is Some
                    && current@[j] != old(self).tabs@[j].disk && current@[j] is None,
            decreases self.tabs@.len() - i,
        {
            let ghost tab0 = self.tabs@[i as int];
            let ghost reads0 = reads@.map_values(|r: (u64, String, DiskStamp)| (r.0, r.1@, r.2));
            proof {
                assert(old(self).tabs@.take(i + 1).drop_last() =~= old(self).tabs@.take(i as int));
                assert(current@.take(i + 1).take(i as int) =~= current@.take(i as int));
                assert(old(self).tabs@.take(i + 1)[i as int] == old(self).tabs@[i as int]);
                assert(current@.take(i + 1)[i as int] == current@[i as int]);
            }
            let now = current[i];
            let unchanged = match (now, self.tabs[i].disk) {
                (Some(a), Some(b)) => a.mtime == b.mtime && a.len == b.len,
                (None, None) => true,
                _ => false,
            };
            let has_path = self.tabs[i].document.path.is_some();
            if has_path && !unchanged {
                match now {
                    None => {
                        self.tabs[i].disk = None;
                        self.tabs[i].dirty = true;
                        self.tabs[i].draft_generation = self.tabs[i].draft_generation + 1;
                        deleted_any = true;
                    },
                    Some(stamp) => {
                        if self.tabs[i].dirty {
                            self.tabs[i].externally_changed = true;
                        } else {
                            let path = match &self.tabs[i].document.path {
                                Some(p) => p.clone(),
                                None => String::new(),
                            };
                            reads.push((self.tabs[i].id, path, stamp));
                            proof {
                                assert(reads@.map_values(|r: (u64, String, DiskStamp)| (r.0, r.1@, r.2)) =~= reads0.push(
                                    (tab0.id, tab0.document.path->0@, stamp)));
                            }
                        }
                    },
                }
            }
            proof {
                assert forall|j: int| 0 <= j < i + 1 implies #[trigger] self.tabs@[j] == Self::swept_tab(old(self).tabs@[j], current@[j]) by {
                    if j == i {
                        assert(self.tabs@[j] == Self::swept_tab(tab0, current@[j]));
                    }
                }
            }
            i = i + 1;
        }
        assert(old(self).tabs@.take(old(self).tabs@.len() as int) =~= old(self).tabs@);
        assert(current@.take(current@.len() as int) =~= current@);
        (reads, deleted_any)
    }

    /// `self` is `old` after the background re-read of tab `id`'s file at `path` came back with `outcome`, applied as `applied`.
    pub open spec fn reloaded_from(&self, old: &Self, id: u64, path: Seq<char>, stamp: Option<DiskStamp>, outcome: ReadOutcome, applied: ReloadApplied) -> bool {
        &&& self.tabs@.len() == old.tabs@.len()
        &&& self.active == old.active
        &&& self.rest_same(old)
        &&& self.previous_active_id == old.previous_active_id
        &&& match applied {
            ReloadApplied::Ignored => self.tabs@ =~= old.tabs@,
            ReloadApplied::Flagged(i) => i < old.tabs@.len() && old.tabs@[i as int].dirty
                && self.tabs@ =~= old.tabs@.update(i as int, Tab { externally_changed: true, ..old.tabs@[i as int] }),
            ReloadApplied::Vanished(i) => i < old.tabs@.len() && !old.tabs@[i as int].dirty
                && outcome is NotFound
                && self.tabs@ =~= old.tabs@.update(i as int, Tab {
                    disk: None,
                    dirty: true,
                    draft_generation: (old.tabs@[i as int].draft_generation + 1) as u64,
                    ..old.tabs@[i as int]
                }),
            ReloadApplied::Replaced(i) => i < old.tabs@.len() && !old.tabs@[i as int].dirty
                && (outcome matches ReadOutcome::Loaded(text)
                    && self.tabs@ =~= old.tabs@.update(i as int, Tab { text, disk: stamp, ..old.tabs@[i as int] })),
        }
        &&& applied !is Ignored ==> ({
            let i = match applied {
                ReloadApplied::Flagged(i) => i,
                ReloadApplied::Vanished(i) => i,
                ReloadApplied::Replaced(i) => i,
                ReloadApplied::Ignored => 0,
            };
            old.tabs@[i as int].id == id && path_view(old.tabs@[i as int].document.path) == Some(path)
        })
        &&& (forall|j: int| 0 <= j < old.tabs@.len() ==> !(#[trigger] old.tabs@[j].id == id
            && path_view(old.tabs@[j].document.path) == Some(path))) ==> applied is Ignored
        &&& (!(outcome is Failed) && exists|j: int| 0 <= j < old.tabs@.len() && #[trigger] old.tabs@[j].id == id
            && path_view(old.tabs@[j].document.path) == Some(path)) ==> applied !is Ignored
        &&& forall|i: int| 0 <= i < old.tabs@.len() && #[trigger] old.tabs@[i].id == id
            && path_view(old.tabs@[i].document.path) == Some(path)
            && (forall|j: int| 0 <= j < i ==> !(old.tabs@[j].id == id
                && path_view(old.tabs@[j].document.path) == Some(path))) ==> {
            &&& old.tabs@[i].dirty ==> applied == ReloadApplied::Flagged(i as usize)
            &&& !old.tabs@[i].dirty ==> applied == match outcome {
                ReadOutcome::Loaded(_) => ReloadApplied::Replaced(i as usize),
                ReadOutcome::NotFound => ReloadApplied::Vanished(i as usize),
                ReadOutcome::Failed => ReloadApplied::Ignored,
            }
        }
    }

    /// What came of a background re-read of tab `id`'s file at `path`.
    pub fn document_reloaded(&mut self, id: u64, path: &str, stamp: Option<DiskStamp>, outcome: ReadOutcome) -> (applied: ReloadApplied)
        requires
            old(self).wf(),
            forall|i: int| 0 <= i < old(self).tabs@.len() ==> #[trigger] old(self).tabs@[i].draft_generation < u64::MAX,
        ensures
            final(self).wf(),
            final(self).reloaded_from(old(self), id, path@, stamp, outcome, applied),
    {
        let index = match self.tab_index_holding(id, path) {
            Some(index) => index,
            None => return ReloadApplied::Ignored,
        };
        if self.tabs[index].dirty {
            self.tabs[index].externally_changed = true;
            return ReloadApplied::Flagged(index);
        }
        match outcome {
            ReadOutcome::Loaded(text) => {
                self.tabs[index].text = text;
                self.tabs[index].disk = stamp;
                ReloadApplied::Replaced(index)
            },
            ReadOutcome::NotFound => {
                self.tabs[index].disk = None;
                self.tabs[index].dirty = true;
                self.tabs[index].draft_generation = self.tabs[index].draft_generation + 1;
                ReloadApplied::Vanished(index)
            },
            ReadOutcome::Failed => ReloadApplied::Ignored,
        }
    }

    /// The re-read asked for from the conflict dialog or the changed-on-disk
    /// bar came back: this one does replace a dirty buffer, since discarding
    /// it was asked for. Returns the tab's index, if it still shows `path`.
    pub fn conflict_reloaded(&mut self, id: u64, path: &str, stamp: Option<DiskStamp>, contents: String) -> (index: Option<usize>)
        requires
            old(self).wf(),
        ensures
            final(self).wf(),
            final(self).tabs@.len() == old(self).tabs@.len(),
            final(self).active == old(self).active,
            final(self).rest_same(old(self)),
            match index {
                Some(i) => i < old(self).tabs@.len() && old(self).tabs@[i as int].id == id
                    && path_view(old(self).tabs@[i as int].document.path) == Some(path@)
                    && (forall|j: int| 0 <= j < i ==> !(#[trigger] old(self).tabs@[j].id == id
                        && path_view(old(self).tabs@[j].document.path) == Some(path@)))
                    && final(self).tabs@ == old(self).tabs@.update(i as int, Tab {
                        text: contents,
                        dirty: false,
                        externally_changed: false,
                        disk: stamp,
                        ..old(self).tabs@[i as int]
                    }),
                None => final(self).tabs@ == old(self).tabs@
                    && forall|j: int| 0 <= j < old(self).tabs@.len() ==> !(#[trigger] old(self).tabs@[j].id == id
                        && path_view(old(self).tabs@[j].document.path) == Some(path@)),
            },
    {
        let index = match self.tab_index_holding(id, path) {
            Some(index) => index,
            None => return None,
        };
        self.tabs[index].text = contents;
        self.tabs[index].dirty = false;
        self.tabs[index].externally_changed = false;
        self.tabs[index].disk = stamp;
        Some(index)
    }

    /// "Keep mine" on the changed-on-disk bar: the change is acknowledged
    /// and the tab restamped with the file's `current` stamp, so the next
    /// save goes through unprompted. Turned away while a dialog is up.
    pub fn acknowledge_external_change(&mut self, id: u64, current: Option<DiskStamp>) -> (done: bool)
        requires
            old(self).wf(),
        ensures
            final(self).wf(),
            final(self).active == old(self).active,
            final(self).rest_same(old(self)),
            done == (old(self).modal is None && find_id(old(self).tabs@, id) is Some),
            done ==> final(self).tabs@ == update_first(old(self).tabs@, id,
                |t: Tab| Tab {
                    externally_changed: false,
                    disk: if t.document.path is Some { current } else { None },
                    ..t
                }),
            !done ==> final(self).tabs@ == old(self).tabs@,
    {
        if self.modal.is_some() {
            return false;
        }
        match self.index_of_id(id) {
            Some(index) => {
                self.tabs[index].externally_changed = false;
                self.tabs[index].restamp(current);
                true
            },
            None => false,
        }
    }

    /// The file to re-read for tab `id` when its changed-on-disk bar asks
    /// for the version on disk: its path, unless a dialog is up or the tab
    /// is gone or has no file.
    pub fn reload_requested(&self, id: u64) -> (path: Option<String>)
        ensures
            match path {
                Some(p) => self.modal is None && (find_id(self.tabs@, id) matches Some(i)
                    && path_view(self.tabs@[i].document.path) == Some(p@)),
                None => self.modal is Some || match find_id(self.tabs@, id) {
                    Some(i) => self.tabs@[i].document.path is None,
                    None => true,
                },
            },
    {
        if self.modal.is_some() {
            return None;
        }
        match self.index_of_id(id) {
            Some(index) => match &self.tabs[index].document.path {
                Some(p) => Some(p.clone()),
                None => None,
            },
            None => None,
        }
    }

    /// A restored tab's file came back from its re-read as `contents`,
    /// stamped `stamp`: the first tab with that id takes the text, and the
    /// stamp as what it last saw on disk.
    pub fn session_file_loaded(&mut self, id: u64, contents: String, stamp: Option<DiskStamp>) -> (found: bool)
        requires
            old(self).wf(),
        ensures
            final(self).wf(),
            final(self).active == old(self).active,
            final(self).rest_same(old(self)),
            final(self).previous_active_id == old(self).previous_active_id,
            found == (find_id(old(self).tabs@, id) is Some),
            final(self).tabs@ == update_first(old(self).tabs@, id,
                |t: Tab| Tab { text: contents, disk: if t.document.path is Some { stamp } else { None }, ..t }),
    {
        match self.index_of_id(id) {
            Some(index) => {
                self.tabs[index].text = contents;
                self.tabs[index].restamp(stamp);
                true
            },
            None => false,
        }
    }

    /// A background draft write for tab `id` finished at `generation`; only
    /// a newer generation than the last flushed one is recorded.
    pub fn draft_flushed(&mut self, id: u64, generation: u64)
        requires
            old(self).wf(),
        ensures
            final(self).wf(),
            final(self).active == old(self).active,
            final(self).rest_same(old(self)),
            final(self).tabs@ == update_first(old(self).tabs@, id,
                |t: Tab| if generation > t.flushed_generation { Tab { flushed_generation: generation, ..t } } else { t }),
    {
        if let Some(index) = self.index_of_id(id) {
            if generation > self.tabs[index].flushed_generation {
                self.tabs[index].flushed_generation = generation;
            }
        }
    }

    /// `self` is `old` after tab `index`'s editor changed its text to `text`, answered `became_dirty`.
    pub open spec fn edited_from(&self, old: &Self, index: usize, text: String, became_dirty: Option<bool>) -> bool {
        &&& self.active == old.active
        &&& self.rest_same(old)
        &&& (old.modal is Some || index >= old.tabs@.len()) ==> became_dirty is None
            && self.tabs@ =~= old.tabs@
        &&& (old.modal is None && index < old.tabs@.len()) ==> {
            &&& became_dirty == Some(!old.tabs@[index as int].dirty)
            &&& self.tabs@ =~= old.tabs@.update(index as int, Tab {
                text,
                dirty: true,
                draft_generation: (old.tabs@[index as int].draft_generation + 1) as u64,
                ..old.tabs@[index as int]
            })
        }
    }

    /// Tab `index`'s editor changed its text to `text`. Turned away while a
    /// dialog is up. Returns whether the tab just became dirty (the moment
    /// the manifest needs writing), or `None` when nothing was edited.
    pub fn edited(&mut self, index: usize, text: String) -> (became_dirty: Option<bool>)
        requires
            old(self).wf(),
            index < old(self).tabs@.len() ==> old(self).tabs@[index as int].draft_generation < u64::MAX,
        ensures
            final(self).wf(),
            final(self).edited_from(old(self), index, text, became_dirty),
    {
        if self.modal.is_some() || index >= self.tabs.len() {
            return None;
        }
        let just_became_dirty = !self.tabs[index].dirty;
        self.tabs[index].text = text;
        self.tabs[index].dirty = true;
        self.tabs[index].draft_generation = self.tabs[index].draft_generation + 1;
        Some(just_became_dirty)
    }
}


/// Focus among a dialog's three choices goes round: a step one way then
/// the other returns to where it was, and three steps the same way come
/// back to the start.
pub proof fn lemma_focus_goes_round(focused: usize)
    requires
        focused < 3,
    ensures
        moved_focus(moved_focus(focused, ModalKey::Right), ModalKey::Left) == focused,
        moved_focus(moved_focus(focused, ModalKey::Left), ModalKey::Right) == focused,
        moved_focus(moved_focus(focused, ModalKey::Tab), ModalKey::ShiftTab) == focused,
        moved_focus(moved_focus(moved_focus(focused, ModalKey::Right), ModalKey::Right), ModalKey::Right) == focused,
        moved_focus(focused, ModalKey::Right) < 3,
        moved_focus(focused, ModalKey::Left) < 3,
{
}

/// Cycling through tabs goes round: the next tab's previous tab is where
/// it started, in a strip of `count` tabs.
pub proof fn lemma_cycle_goes_round(active: int, count: int)
    requires
        0 <= active < count,
    ensures
        0 <= (active + 1) % count < count,
        (((active + 1) % count) + (-1)) % count == active,
        (((active + (-1)) % count) + 1) % count == active,
{
    lemma_cycle_remainders(active, count);
}

/// The remainders `lemma_cycle_goes_round` rests on.
proof fn lemma_cycle_remainders(active: int, count: int)
    requires
        0 <= active < count,
    ensures
        (((active + 1) % count) + (-1)) % count == active,
        (((active + (-1)) % count) + 1) % count == active,
{
    vstd::arithmetic::div_mod::lemma_small_mod(active as nat, count as nat);
    if active + 1 < count {
        vstd::arithmetic::div_mod::lemma_small_mod((active + 1) as nat, count as nat);
    } else {
        vstd::arithmetic::div_mod::lemma_fundamental_div_mod_converse(active + 1, count, 1, 0);
        vstd::arithmetic::div_mod::lemma_fundamental_div_mod_converse(-1, count, -1, count - 1);
    }
    if active > 0 {
        vstd::arithmetic::div_mod::lemma_small_mod((active - 1) as nat, count as nat);
        vstd::arithmetic::div_mod::lemma_small_mod(active as nat, count as nat);
    } else {
        vstd::arithmetic::div_mod::lemma_fundamental_div_mod_converse(-1, count, -1, count - 1);
        vstd::arithmetic::div_mod::lemma_fundamental_div_mod_converse(count, count, 1, 0);
    }
}

/// A new tab's id is fresh: no open tab has it, in a well-formed strip.
pub proof fn lemma_next_id_is_fresh(ws: Workspace)
    requires
        ws.wf(),
    ensures
        forall|i: int| 0 <= i < ws.tabs@.len() ==> #[trigger] ws.tabs@[i].id != ws.next_id,
{
}

/// Whether `id` is in `ids`.
pub fn contains_id(ids: &Vec<u64>, id: u64) -> (found: bool)
    ensures
        found == ids@.contains(id),
{
    let mut i: usize = 0;
    while i < ids.len()
        invariant
            0 <= i <= ids@.len(),
            forall|j: int| 0 <= j < i ==> ids@[j] != id,
        decreases ids@.len() - i,
    {
        if ids[i] == id {
            assert(ids@[i as int] == id);
            return true;
        }
        i = i + 1;
    }
    false
}

} // verus!