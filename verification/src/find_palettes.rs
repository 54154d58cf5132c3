//! Every tab's find palette, keyed by tab id: opening and closing it,
//! typing a query, stepping through matches, and keeping the match list in
//! step with the document and the cursor. The shell passes in the tab's
//! text and cursor, and applies what comes back to the editor: the matches
//! to color (see [`FindPalettes::highlights`]) and the match to select.
use vstd::prelude::*;
use vstd::string::StringExecFns;
use crate::find::{find_matches, find_spec, FindMatch};
use crate::find_state::{is_first_at_or_after, touches, FindState};
use crate::text::utf8_size;
use std::collections::HashMap;

verus! {

broadcast use vstd::string::group_string_axioms, vstd::slice::group_slice_axioms,
    vstd::std_specs::hash::group_hash_axioms;

/// Every tab's find palette, keyed by tab id.
pub struct FindPalettes {
    pub entries: HashMap<u64, FindState>,
}

/// The colors to push to an editor: its matches and the current one while
/// the palette shows, nothing otherwise.
pub open spec fn highlights_spec(state: Option<FindState>) -> (Seq<FindMatch>, Option<usize>) {
    match state {
        Some(s) => if s.open { (s.matches@, s.current) } else { (Seq::empty(), None) },
        None => (Seq::empty(), None),
    }
}

/// The match `state` selects, if any.
pub open spec fn current_match_spec(state: FindState) -> Option<FindMatch> {
    match state.current {
        Some(i) => if i < state.matches@.len() { Some(state.matches@[i as int]) } else { None },
        None => None,
    }
}

/// A state whose palette shows `text`'s matches for its query, with the
/// current one the first at or after `origin`.
pub open spec fn searched(state: FindState, text: Seq<char>) -> bool {
    &&& state.matches@ == find_spec(text, state.query@)
    &&& is_first_at_or_after(state.matches@, state.origin, state.current)
}

impl FindPalettes {
    /// Every selected match exists.
    pub open spec fn wf(&self) -> bool {
        forall|k: u64| #[trigger] self.entries@.contains_key(k) ==>
            (self.entries@[k].current matches Some(c) ==> c < self.entries@[k].matches@.len())
    }

    /// Tab `id`'s palette state, if it has one.
    pub open spec fn state(&self, id: u64) -> Option<FindState> {
        if self.entries@.contains_key(id) { Some(self.entries@[id]) } else { None }
    }

    /// Every other tab's palette is as it was.
    pub open spec fn others_same(&self, old: &Self, id: u64) -> bool {
        forall|k: u64| k != id ==> #[trigger] self.state(k) == old.state(k)
    }

    /// `self` is `old` after tab `id`'s text became `text`: a showing palette
    /// searched it again, keeping its query and origin; nothing else moved.
    pub open spec fn refreshed(&self, old: &Self, id: u64, text: Seq<char>) -> bool {
        &&& self.others_same(old, id)
        &&& match old.state(id) {
            Some(o) => if o.open {
                self.state(id) matches Some(s) && s.query@ == o.query@ && s.origin == o.origin
                    && s.open && searched(s, text)
            } else {
                self.entries@ == old.entries@
            },
            None => self.entries@ == old.entries@,
        }
    }

    /// `self` is `old` after tab `id`'s cursor moved to `cursor`: a showing
    /// palette's current match became the one the cursor touches, if any.
    pub open spec fn counter_synced(&self, old: &Self, id: u64, cursor: (usize, usize)) -> bool {
        &&& self.others_same(old, id)
        &&& match old.state(id) {
            Some(o) => if o.open && touched_index(o.matches@, cursor) is Some {
                self.state(id) == Some(FindState {
                    current: Some(touched_index(o.matches@, cursor)->0 as usize),
                    ..o
                })
            } else {
                self.entries@ == old.entries@
            },
            None => self.entries@ == old.entries@,
        }
    }

    /// No palettes yet.
    pub fn new() -> (palettes: Self)
        ensures
            palettes.wf(),
            forall|k: u64| #[trigger] palettes.state(k) is None,
    {
        FindPalettes { entries: HashMap::new() }
    }

    /// Takes tab `id`'s palette out for changing, or a fresh, closed one
    /// when it has none; `put` stores it back.
    fn take(&mut self, id: u64) -> (state: FindState)
        requires
            old(self).wf(),
        ensures
            final(self).entries@ == old(self).entries@.remove(id),
            final(self).wf(),
            match old(self).state(id) {
                Some(o) => state == o,
                None => state.query@ == Seq::<char>::empty() && state.matches@ == Seq::<FindMatch>::empty()
                    && state.current is None && state.origin == (0usize, 0usize) && !state.open,
            },
            state.current matches Some(c) ==> c < state.matches@.len(),
    {
        match self.entries.remove(&id) {
            Some(state) => state,
            None => FindState::default(),
        }
    }

    /// Stores `state` as tab `id`'s palette.
    fn put(&mut self, id: u64, state: FindState)
        requires
            old(self).wf(),
            state.current matches Some(c) ==> c < state.matches@.len(),
        ensures
            final(self).wf(),
            final(self).entries@ == old(self).entries@.insert(id, state),
            final(self).state(id) == Some(state),
    {
        self.entries.insert(id, state);
    }

    /// The palette state of tab `id`, if it has one.
    pub fn get(&self, id: u64) -> (state: Option<&FindState>)
        ensures
            match state {
                Some(s) => self.state(id) == Some(*s),
                None => self.state(id) is None,
            },
    {
        self.entries.get(&id)
    }

    /// Whether tab `id`'s palette is showing.
    pub fn is_open(&self, id: u64) -> (open: bool)
        ensures
            open == (self.state(id) matches Some(s) && s.open),
    {
        match self.entries.get(&id) {
            Some(state) => state.open,
            None => false,
        }
    }

    /// What tab `id`'s editor colors: its matches and the current one while
    /// the palette shows, nothing otherwise.
    pub fn highlights(&self, id: u64) -> (colored: (Vec<FindMatch>, Option<usize>))
        ensures
            (colored.0@, colored.1) == highlights_spec(self.state(id)),
    {
        match self.entries.get(&id) {
            Some(state) => {
                if state.open {
                    (state.matches.clone(), state.current)
                } else {
                    (Vec::new(), None)
                }
            },
            None => (Vec::new(), None),
        }
    }

    /// Opens tab `id`'s palette over `text`, anchored at `cursor`: the query
    /// it last had (none the first time) is searched again from there.
    /// Returns the match to select.
    pub fn open(&mut self, id: u64, text: &str, cursor: (usize, usize)) -> (select: Option<FindMatch>)
        requires
            old(self).wf(),
        ensures
            final(self).wf(),
            final(self).others_same(old(self), id),
            final(self).state(id) matches Some(s) && {
                &&& s.open
                &&& s.origin == cursor
                &&& s.query@ == match old(self).state(id) {
                    Some(o) => o.query@,
                    None => Seq::<char>::empty(),
                }
                &&& searched(s, text@)
                &&& select == current_match_spec(s)
            },
    {
        let mut state = self.take(id);
        state.origin = cursor;
        state.open = true;
        state.search(text);
        let select = state.current_match();
        self.put(id, state);
        select
    }

    /// The query of tab `id`'s palette changed to `query`. With Command
    /// held, a query exactly one byte longer than before is a shortcut's
    /// character leaking into the field, and is dropped: the result is then
    /// `None`. Otherwise the query is stored, searched while the palette
    /// shows, and the result holds the match to select.
    pub fn query_changed(&mut self, id: u64, query: String, text: &str, command_held: bool) -> (changed: Option<Option<FindMatch>>)
        requires
            old(self).wf(),
        ensures
            final(self).wf(),
            final(self).others_same(old(self), id),
            ({
                let leaked = command_held && (old(self).state(id) matches Some(o)
                    && utf8_size(query@) == utf8_size(o.query@) + 1);
                &&& leaked ==> changed is None && final(self).entries@ == old(self).entries@
                &&& !leaked ==> (changed matches Some(select) && final(self).state(id) matches Some(s) && {
                    let before = match old(self).state(id) {
                        Some(o) => o,
                        None => s,
                    };
                    &&& s.query@ == query@
                    &&& s.open == (old(self).state(id) matches Some(o) && o.open)
                    &&& s.origin == if old(self).state(id) is Some { before.origin } else { (0usize, 0usize) }
                    &&& s.open ==> searched(s, text@)
                    &&& !s.open && old(self).state(id) is Some ==> s.matches == before.matches && s.current == before.current
                    &&& !s.open && old(self).state(id) is None ==> s.matches@.len() == 0 && s.current is None
                    &&& select == current_match_spec(s)
                })
            }),
    {
        if command_held {
            match self.entries.get(&id) {
                Some(state) => {
                    let grown = query.as_str().as_bytes().len();
                    let before = state.query.as_str().as_bytes().len();
                    assert(grown == utf8_size(query@));
                    assert(before == utf8_size(state.query@));
                    if grown > 0 && grown - 1 == before {
                        return None;
                    }
                },
                None => {},
            }
        }
        let mut state = self.take(id);
        state.query = query;
        if state.open {
            state.search(text);
        }
        let select = state.current_match();
        self.put(id, state);
        Some(select)
    }

    /// Find-again in tab `id`, forward or backward. Without a palette or a
    /// query it does nothing and returns `None`. With the palette closed the
    /// document is searched afresh from `cursor`, the current match being
    /// the one the cursor touches; then the current match steps by one,
    /// wrapping at both ends (stepping counts in `isize`, which every list
    /// that fits in memory does). Returns the match to select.
    pub fn find_again(&mut self, id: u64, forward: bool, text: &str, cursor: (usize, usize)) -> (select: Option<FindMatch>)
        requires
            old(self).wf(),
        ensures
            final(self).wf(),
            final(self).others_same(old(self), id),
            match old(self).state(id) {
                None => select is None && final(self).entries@ == old(self).entries@,
                Some(o) => if o.query@.len() == 0 {
                    select is None && final(self).entries@ == old(self).entries@
                } else {
                    final(self).state(id) matches Some(s) && {
                        let matches = if o.open { o.matches@ } else { find_spec(text@, o.query@) };
                        let origin = if o.open { o.origin } else { cursor };
                        let start: Option<usize> = if o.open {
                            o.current
                        } else {
                            match touched_index(matches, cursor) {
                                Some(t) => Some(t as usize),
                                None => None,
                            }
                        };
                        &&& s.query@ == o.query@
                        &&& s.open == o.open
                        &&& s.origin == origin
                        &&& s.matches@ == matches
                        &&& matches.len() == 0 ==> s.current is None
                        &&& matches.len() > 0 && matches.len() <= isize::MAX ==> match start {
                            Some(c) => s.current == Some(((c + if forward { 1int } else { -1int }) % (matches.len() as int)) as usize),
                            None => is_first_at_or_after(matches, origin, s.current),
                        }
                        &&& select == current_match_spec(s)
                    }
                },
            },
    {
        match self.entries.get(&id) {
            Some(state) => if state.query.as_str().is_empty() {
                return None;
            },
            None => return None,
        }
        let mut state = self.take(id);
        if !state.open {
            state.matches = find_matches(text, state.query.as_str());
            state.origin = cursor;
            state.current = state.index_at(cursor);
            proof {
                lemma_index_at_is_touched(state.matches@, cursor, state.current);
            }
        }
        if state.matches.len() <= isize::MAX as usize {
            let delta: isize = if forward { 1 } else { -1 };
            state.step(delta);
        }
        let select = state.current_match();
        self.put(id, state);
        select
    }

    /// Closes tab `id`'s palette, keeping its query for next time. Turned
    /// away while a dialog is up, and a no-op when it is not showing.
    /// Returns whether it closed.
    pub fn close(&mut self, id: u64, modal_up: bool) -> (closed: bool)
        requires
            old(self).wf(),
        ensures
            final(self).wf(),
            final(self).others_same(old(self), id),
            closed == (!modal_up && (old(self).state(id) matches Some(o) && o.open)),
            !closed ==> final(self).entries@ == old(self).entries@,
            closed ==> (final(self).state(id) matches Some(s) && old(self).state(id) matches Some(o)
                && s == FindState { open: false, ..o }),
    {
        if modal_up {
            return false;
        }
        match self.entries.get(&id) {
            Some(state) => if !state.open {
                return false;
            },
            None => return false,
        }
        let mut state = self.take(id);
        state.open = false;
        self.put(id, state);
        true
    }

    /// Tab `id`'s document, or which tab is active, changed: a showing
    /// palette searches `text` again.
    pub fn refresh(&mut self, id: u64, text: &str)
        requires
            old(self).wf(),
        ensures
            final(self).wf(),
            final(self).refreshed(old(self), id, text@),
    {
        match self.entries.get(&id) {
            Some(state) => if !state.open {
                return;
            },
            None => return,
        }
        let mut state = self.take(id);
        state.search(text);
        self.put(id, state);
    }

    /// The cursor of tab `id` moved to `cursor` without changing the text:
    /// a showing palette's current match becomes the one the cursor
    /// touches, when it touches one.
    pub fn sync_counter(&mut self, id: u64, cursor: (usize, usize))
        requires
            old(self).wf(),
        ensures
            final(self).wf(),
            final(self).counter_synced(old(self), id, cursor),
    {
        let touched = match self.entries.get(&id) {
            Some(state) => {
                if !state.open {
                    return;
                }
                let touched = state.index_at(cursor);
                proof {
                    lemma_index_at_is_touched(state.matches@, cursor, touched);
                }
                touched
            },
            None => return,
        };
        match touched {
            Some(t) => {
                let mut state = self.take(id);
                state.current = Some(t);
                self.put(id, state);
            },
            None => {},
        }
    }

    /// Tab `id` closed: its palette goes with it.
    pub fn forget(&mut self, id: u64)
        requires
            old(self).wf(),
        ensures
            final(self).wf(),
            final(self).others_same(old(self), id),
            final(self).state(id) is None,
    {
        self.entries.remove(&id);
    }
}

/// The widget a window hands keyboard focus to.
#[derive(Debug, Clone, Copy, PartialEq, Eq, Structural)]
pub enum FocusTarget {
    /// The find palette's query field.
    FindInput,
    /// The active tab's editor.
    Editor,
}

/// Where keyboard focus goes: nowhere while a dialog is up (it drives its
/// choices from key handling of its own), to the query while the active
/// tab's palette shows, to the editor otherwise.
pub fn focus_target(modal_up: bool, palettes: &FindPalettes, active_id: u64) -> (target: Option<FocusTarget>)
    ensures
        modal_up ==> target is None,
        !modal_up ==> target == Some(if palettes.state(active_id) matches Some(s) && s.open {
            FocusTarget::FindInput
        } else {
            FocusTarget::Editor
        }),
{
    if modal_up {
        None
    } else if palettes.is_open(active_id) {
        Some(FocusTarget::FindInput)
    } else {
        Some(FocusTarget::Editor)
    }
}

/// The first match `position` touches, if any.
pub open spec fn touched_index(matches: Seq<FindMatch>, position: (usize, usize)) -> Option<int>
    decreases matches.len(),
{
    if matches.len() == 0 {
        None
    } else {
        match touched_index(matches.drop_last(), position) {
            Some(i) => Some(i),
            None => if touches(matches.last(), position) { Some(matches.len() - 1) } else { None },
        }
    }
}

/// `touched_index` is the first touched match.
proof fn lemma_touched_index(matches: Seq<FindMatch>, position: (usize, usize))
    ensures
        match touched_index(matches, position) {
            Some(i) => 0 <= i < matches.len() && touches(matches[i], position)
                && forall|j: int| 0 <= j < i ==> !touches(#[trigger] matches[j], position),
            None => forall|j: int| 0 <= j < matches.len() ==> !touches(#[trigger] matches[j], position),
        },
    decreases matches.len(),
{
    if matches.len() > 0 {
        lemma_touched_index(matches.drop_last(), position);
        assert forall|j: int| 0 <= j < matches.len() - 1 implies #[trigger] matches[j] == matches.drop_last()[j] by {}
    }
}

/// What `FindState::index_at` returns is `touched_index`.
proof fn lemma_index_at_is_touched(matches: Seq<FindMatch>, position: (usize, usize), found: Option<usize>)
    requires
        match found {
            Some(i) => i < matches.len() && touches(matches[i as int], position)
                && forall|j: int| 0 <= j < i ==> !touches(#[trigger] matches[j], position),
            None => forall|j: int| 0 <= j < matches.len() ==> !touches(#[trigger] matches[j], position),
        },
    ensures
        match found {
            Some(i) => touched_index(matches, position) == Some(i as int),
            None => touched_index(matches, position) is None,
        },
{
    lemma_touched_index(matches, position);
    match touched_index(matches, position) {
        Some(t) => {
            match found {
                Some(i) => {
                    if (t as int) < (i as int) {
                        assert(!touches(matches[t], position));
                    } else if (i as int) < t {
                        assert(!touches(matches[i as int], position));
                    }
                },
                None => {
                    assert(!touches(matches[t], position));
                },
            }
        },
        None => {
            match found {
                Some(i) => {
                    assert(!touches(matches[i as int], position));
                },
                None => {},
            }
        },
    }
}

} // verus!
