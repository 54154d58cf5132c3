//! A snapshot-based undo/redo stack.
use vstd::prelude::*;
use crate::debounce::{elapsed, elapsed_since};

verus! {

broadcast use vstd::string::group_string_axioms;

/// Cap on how many undo steps are kept: each holds a full copy of the text.
pub const MAX_DEPTH: usize = 200;

/// Edits within this many nanoseconds of the previous one fold into the same
/// undo step, so a burst of typing undoes as one.
pub const COALESCE_WINDOW: u64 = 750_000_000;

/// One remembered state of the document: its text and cursor.
pub type SnapshotModel = (Seq<char>, (usize, usize));

/// The abstract state of a [`History`]: both stacks (top last), and when the
/// last edit was recorded.
pub struct HistoryModel {
    pub undo: Seq<SnapshotModel>,
    pub redo: Seq<SnapshotModel>,
    pub last_edit_at: Option<u64>,
}

impl HistoryModel {
    /// Whether an edit at `now` starts a new undo step rather than folding
    /// into the current one.
    pub open spec fn starts_step(self, now: u64) -> bool {
        match self.last_edit_at {
            Some(last) => elapsed(now, last) > COALESCE_WINDOW,
            None => true,
        }
    }

    /// The state after recording the pre-edit state `(text, cursor)` at `now`.
    pub open spec fn recorded(self, text: Seq<char>, cursor: (usize, usize), now: u64) -> HistoryModel {
        let undo = if self.starts_step(now) {
            let pushed = self.undo.push((text, cursor));
            if pushed.len() > MAX_DEPTH { pushed.drop_first() } else { pushed }
        } else {
            self.undo
        };
        HistoryModel { undo, redo: Seq::empty(), last_edit_at: Some(now) }
    }

    /// The state after an undo from the current `(text, cursor)`, when there
    /// is a step to undo.
    pub open spec fn undone(self, text: Seq<char>, cursor: (usize, usize)) -> HistoryModel {
        HistoryModel {
            undo: self.undo.drop_last(),
            redo: self.redo.push((text, cursor)),
            last_edit_at: None,
        }
    }

    /// The state after a redo from the current `(text, cursor)`, when there
    /// is a step to redo.
    pub open spec fn redone(self, text: Seq<char>, cursor: (usize, usize)) -> HistoryModel {
        HistoryModel {
            undo: self.undo.push((text, cursor)),
            redo: self.redo.drop_last(),
            last_edit_at: None,
        }
    }

    /// The depth cap holds, for both stacks together: a redo only ever
    /// returns a step that an undo took off the undo stack.
    pub open spec fn wf(self) -> bool {
        self.undo.len() + self.redo.len() <= MAX_DEPTH
    }
}

struct Snapshot {
    text: String,
    cursor: (usize, usize),
}

/// A snapshot-based undo/redo stack. Stores whole-document text rather than
/// diffs; the depth cap bounds memory.
pub struct History {
    undo: Vec<Snapshot>,
    redo: Vec<Snapshot>,
    last_edit_at: Option<u64>,
    /// The moment the history was made; edit times are read on the
    /// monotonic clock as nanoseconds since then.
    origin: std::time::Instant,
}

/// The model of a stack of snapshots.
spec fn stack_model(stack: Seq<Snapshot>) -> Seq<SnapshotModel> {
    stack.map_values(|s: Snapshot| (s.text@, s.cursor))
}

impl View for History {
    type V = HistoryModel;

    closed spec fn view(&self) -> HistoryModel {
        HistoryModel {
            undo: stack_model(self.undo@),
            redo: stack_model(self.redo@),
            last_edit_at: self.last_edit_at,
        }
    }
}

/// What a successful undo or redo hands back: the state to restore.
pub open spec fn restored_value(r: Option<(String, (usize, usize))>) -> Option<SnapshotModel> {
    match r {
        Some((text, cursor)) => Some((text@, cursor)),
        None => None,
    }
}

impl History {
    /// An empty history.
    pub fn new() -> (history: Self)
        ensures
            history@ == (HistoryModel { undo: Seq::empty(), redo: Seq::empty(), last_edit_at: None }),
    {
        let h = History { undo: Vec::new(), redo: Vec::new(), last_edit_at: None, origin: monotonic_now() };
        assert(stack_model(h.undo@) =~= Seq::<SnapshotModel>::empty());
        assert(stack_model(h.redo@) =~= Seq::<SnapshotModel>::empty());
        h
    }

    /// Call before performing an edit, with the document's state as it
    /// stood before that edit, at time `now`. Edits within
    /// `COALESCE_WINDOW` of each other fold into one undo step; the oldest
    /// step is dropped past `MAX_DEPTH`; the redo stack is cleared, since a
    /// fresh edit invalidates the undone future.
    pub fn record_before_edit_at(&mut self, text: &str, cursor: (usize, usize), now: u64)
        requires
            old(self)@.wf(),
        ensures
            final(self)@ == old(self)@.recorded(text@, cursor, now),
            final(self)@.wf(),
    {
        let start_new_step = match self.last_edit_at {
            Some(last) => elapsed_since(now, last) > COALESCE_WINDOW,
            None => true,
        };
        let ghost before = self@;
        if start_new_step {
            self.undo.push(Snapshot { text: text.to_owned(), cursor });
            proof {
                assert(stack_model(self.undo@) =~= before.undo.push((text@, cursor)));
            }
            if self.undo.len() > MAX_DEPTH {
                self.undo.remove(0);
                proof {
                    assert(stack_model(self.undo@) =~= before.undo.push((text@, cursor)).drop_first());
                }
            }
        }
        self.redo.clear();
        self.last_edit_at = Some(now);
        assert(stack_model(self.redo@) =~= Seq::<SnapshotModel>::empty());
        assert(self@ =~= before.recorded(text@, cursor, now));
    }

    /// Records the pre-edit state at the current moment of the monotonic
    /// clock, so a change of the system clock does not regroup edits.
    pub fn record_before_edit(&mut self, text: &str, cursor: (usize, usize))
        requires
            old(self)@.wf(),
        ensures
            exists|now: u64| final(self)@ == old(self)@.recorded(text@, cursor, now),
            final(self)@.wf(),
    {
        let now = nanos_since(&self.origin);
        self.record_before_edit_at(text, cursor, now);
    }

    /// Pops the most recent undo step, pushing the current state onto the
    /// redo stack so it can be returned to. `None` when there is nothing to
    /// undo, and then nothing changes.
    pub fn undo(&mut self, current_text: &str, current_cursor: (usize, usize)) -> (restored: Option<(String, (usize, usize))>)
        requires
            old(self)@.wf(),
        ensures
            old(self)@.undo.len() == 0 ==> restored is None && final(self)@ == old(self)@,
            old(self)@.undo.len() > 0 ==> restored_value(restored) == Some(old(self)@.undo.last())
                && final(self)@ == old(self)@.undone(current_text@, current_cursor),
            final(self)@.wf(),
    {
        let ghost before = self@;
        match self.undo.pop() {
            None => None,
            Some(snapshot) => {
                proof {
                    assert(stack_model(self.undo@) =~= before.undo.drop_last());
                }
                self.redo.push(Snapshot { text: current_text.to_owned(), cursor: current_cursor });
                self.last_edit_at = None;
                proof {
                    assert(stack_model(self.redo@) =~= before.redo.push((current_text@, current_cursor)));
                    assert(self@ =~= before.undone(current_text@, current_cursor));
                }
                Some((snapshot.text, snapshot.cursor))
            },
        }
    }

    /// Mirror of `undo`, restoring the most recently undone step.
    pub fn redo(&mut self, current_text: &str, current_cursor: (usize, usize)) -> (restored: Option<(String, (usize, usize))>)
        requires
            old(self)@.wf(),
        ensures
            old(self)@.redo.len() == 0 ==> restored is None && final(self)@ == old(self)@,
            old(self)@.redo.len() > 0 ==> restored_value(restored) == Some(old(self)@.redo.last())
                && final(self)@ == old(self)@.redone(current_text@, current_cursor),
            final(self)@.wf(),
    {
        let ghost before = self@;
        match self.redo.pop() {
            None => None,
            Some(snapshot) => {
                proof {
                    assert(stack_model(self.redo@) =~= before.redo.drop_last());
                }
                self.undo.push(Snapshot { text: current_text.to_owned(), cursor: current_cursor });
                self.last_edit_at = None;
                proof {
                    assert(stack_model(self.undo@) =~= before.undo.push((current_text@, current_cursor)));
                    assert(self@ =~= before.redone(current_text@, current_cursor));
                }
                Some((snapshot.text, snapshot.cursor))
            },
        }
    }
}

/// An undo followed by a redo puts everything back: the redo hands back
/// the state the undo started from, and both stacks are as they were (the
/// next edit starts a fresh step either way).
pub proof fn lemma_undo_then_redo_restores(h: HistoryModel, text: Seq<char>, cursor: (usize, usize))
    requires
        h.wf(),
        h.undo.len() > 0,
    ensures
        ({
            let undone = h.undone(text, cursor);
            let restored = h.undo.last();
            &&& undone.redo.len() > 0
            &&& undone.redo.last() == (text, cursor)
            &&& undone.redone(restored.0, restored.1)
                == (HistoryModel { undo: h.undo, redo: h.redo, last_edit_at: None })
        }),
{
    let undone = h.undone(text, cursor);
    let restored = h.undo.last();
    assert(undone.redone(restored.0, restored.1).undo =~= h.undo);
    assert(undone.redone(restored.0, restored.1).redo =~= h.redo);
}

/// A fresh edit invalidates the undone future: after any edit there is
/// nothing to redo.
pub proof fn lemma_edit_clears_redo(h: HistoryModel, text: Seq<char>, cursor: (usize, usize), now: u64)
    ensures
        h.recorded(text, cursor, now).redo.len() == 0,
{
}

/// A burst of edits undoes as one: a second edit within the coalescing
/// window of the first adds no undo step, so one undo returns to the state
/// before the burst.
pub proof fn lemma_burst_is_one_step(
    h: HistoryModel,
    first: Seq<char>,
    first_cursor: (usize, usize),
    first_at: u64,
    second: Seq<char>,
    second_cursor: (usize, usize),
    second_at: u64,
)
    requires
        elapsed(second_at, first_at) <= COALESCE_WINDOW,
    ensures
        h.recorded(first, first_cursor, first_at).recorded(second, second_cursor, second_at).undo
            == h.recorded(first, first_cursor, first_at).undo,
        h.starts_step(first_at) ==>
            h.recorded(first, first_cursor, first_at).recorded(second, second_cursor, second_at).undo.last()
                == (first, first_cursor),
{
}

/// Edits far enough apart are separate steps, each undoing to the state
/// before it, until the depth cap drops the oldest.
pub proof fn lemma_spaced_edits_are_separate_steps(
    h: HistoryModel,
    text: Seq<char>,
    cursor: (usize, usize),
    now: u64,
)
    requires
        h.wf(),
        h.starts_step(now),
    ensures
        h.recorded(text, cursor, now).undo.last() == (text, cursor),
        h.undo.len() < MAX_DEPTH ==> h.recorded(text, cursor, now).undo == h.undo.push((text, cursor)),
        h.undo.len() == MAX_DEPTH ==> h.recorded(text, cursor, now).undo == h.undo.push((text, cursor)).drop_first(),
        h.recorded(text, cursor, now).undo.len() <= MAX_DEPTH,
{
}

/// After an undo or a redo, the next edit starts a fresh undo step
/// whatever its time, however soon after the last edit it comes: the step
/// holds the state that edit was recorded from, so undoing once more gives
/// that state back, and the steps before it are as the undo or redo left
/// them.
pub proof fn lemma_edit_after_undo_or_redo_is_its_own_step(
    h: HistoryModel,
    text: Seq<char>,
    cursor: (usize, usize),
    edit_text: Seq<char>,
    edit_cursor: (usize, usize),
    now: u64,
)
    requires
        h.wf(),
    ensures
        h.undo.len() > 0 ==> h.undone(text, cursor).starts_step(now),
        h.undo.len() > 0 ==> h.undone(text, cursor).recorded(edit_text, edit_cursor, now).undo
            == h.undo.drop_last().push((edit_text, edit_cursor)),
        h.redo.len() > 0 ==> h.redone(text, cursor).starts_step(now),
        h.redo.len() > 0 && h.undo.len() + 1 < MAX_DEPTH ==> h.redone(text, cursor).recorded(edit_text, edit_cursor, now).undo
            == h.undo.push((text, cursor)).push((edit_text, edit_cursor)),
{
}

/// An undo hands back the state before the latest step and keeps the
/// state it left for a redo; redoing right away returns to it.
pub proof fn lemma_undo_keeps_what_it_left(h: HistoryModel, text: Seq<char>, cursor: (usize, usize))
    requires
        h.wf(),
        h.undo.len() > 0,
    ensures
        h.undone(text, cursor).redo.last() == (text, cursor),
        h.undone(text, cursor).undo == h.undo.drop_last(),
        h.undone(text, cursor).redone(h.undo.last().0, h.undo.last().1).undo == h.undo,
{
    assert(h.undo.drop_last().push(h.undo.last()) =~= h.undo);
}

/// The monotonic clock's time type.
#[verifier::external_type_specification]
#[verifier::external_body]
pub struct MonotonicInstant(std::time::Instant);

/// `Instant::now`: the current moment of the monotonic clock. Nothing is
/// claimed of it: it depends on the moment of the call.
#[verifier::external_body]
fn monotonic_now() -> (t: std::time::Instant) {
    std::time::Instant::now()
}

/// `Instant::elapsed`: how long ago `origin` was on the monotonic clock.
/// Nothing is claimed of it: it depends on the moment of the call.
#[verifier::external_body]
fn time_since(origin: &std::time::Instant) -> (elapsed: std::time::Duration) {
    origin.elapsed()
}

/// `Duration::as_nanos`: the whole nanoseconds in `d`. Nothing is claimed
/// of the value, since nothing here looks inside a `Duration`.
#[verifier::external_body]
fn duration_nanos(d: &std::time::Duration) -> (nanos: u128) {
    d.as_nanos()
}

/// Nanoseconds on the monotonic clock since `origin`, held at `u64::MAX`
/// past about five centuries.
fn nanos_since(origin: &std::time::Instant) -> (nanos: u64) {
    let elapsed = time_since(origin);
    let n = duration_nanos(&elapsed);
    if n > u64::MAX as u128 { u64::MAX } else { n as u64 }
}

} // verus!
