//! State for one tab's find palette.
use vstd::prelude::*;
use vstd::string::StringExecFns;
use crate::find::{find_matches, find_spec, FindMatch};
use crate::text::{decimal, push_decimal};

verus! {

broadcast use vstd::string::group_string_axioms;

/// Whether `found` starts at or after `position`, comparing
/// `(line, column)` pairs the way tuples order: line first, then column.
pub open spec fn at_or_after(found: FindMatch, position: (usize, usize)) -> bool {
    found.line > position.0 || (found.line == position.0 && found.start >= position.1)
}

/// Whether `choice` is what `first_at_or_after` owes for `matches` and
/// `position`: the first match at or after `position`, wrapping to the
/// first match overall when all lie before it, and `None` only when there
/// are no matches.
pub open spec fn is_first_at_or_after(matches: Seq<FindMatch>, position: (usize, usize), choice: Option<usize>) -> bool {
    if matches.len() == 0 {
        choice is None
    } else {
        match choice {
            Some(i) => {
                &&& i < matches.len()
                &&& if exists|j: int| 0 <= j < matches.len() && at_or_after(#[trigger] matches[j], position) {
                    &&& at_or_after(matches[i as int], position)
                    &&& forall|j: int| 0 <= j < i ==> !at_or_after(#[trigger] matches[j], position)
                } else {
                    i == 0
                }
            },
            None => false,
        }
    }
}

/// Whether `position` touches `found`: on its line, between its start and
/// its end inclusive, so a cursor resting just past a match counts.
pub open spec fn touches(found: FindMatch, position: (usize, usize)) -> bool {
    position.0 == found.line && position.1 >= found.start && position.1 <= found.end
}

/// The text of the palette's counter for a non-empty query.
pub open spec fn counter_text(matches: Seq<FindMatch>, current: Option<usize>) -> Seq<char> {
    if matches.len() == 0 {
        "No results"@
    } else {
        let position: nat = match current {
            Some(c) => (c + 1) as nat,
            None => 0,
        };
        decimal(position) + " of "@ + decimal(matches.len())
    }
}

/// One tab's find palette. Survives closing the palette (so reopening keeps
/// the query) but not closing the tab.
#[derive(Debug)]
pub struct FindState {
    pub query: String,
    pub matches: Vec<FindMatch>,
    /// Which match is selected, if any.
    pub current: Option<usize>,
    /// Where the cursor was when the palette opened; live search anchors
    /// here rather than at the live cursor.
    pub origin: (usize, usize),
    /// Whether the palette is on screen; `false` keeps `query` for reopen.
    pub open: bool,
}

impl Default for FindState {
    fn default() -> (state: Self)
        ensures
            state.query@ == Seq::<char>::empty(),
            state.matches@ == Seq::<FindMatch>::empty(),
            state.current is None,
            state.origin == (0usize, 0usize),
            !state.open,
    {
        FindState { query: String::new(), matches: Vec::new(), current: None, origin: (0, 0), open: false }
    }
}

impl FindState {
    /// Recomputes `matches` for `text`, then points `current` at the first
    /// match at or after `origin`, wrapping to the top.
    pub fn search(&mut self, text: &str)
        ensures
            final(self).matches@ == find_spec(text@, old(self).query@),
            is_first_at_or_after(final(self).matches@, old(self).origin, final(self).current),
            final(self).query@ == old(self).query@,
            final(self).origin == old(self).origin,
            final(self).open == old(self).open,
    {
        self.matches = find_matches(text, self.query.as_str());
        self.current = self.first_at_or_after(self.origin);
    }

    /// The first match starting at or after `position`, wrapping around to
    /// the first match overall when everything lies before it. `None` only
    /// when there are no matches at all.
    pub fn first_at_or_after(&self, position: (usize, usize)) -> (choice: Option<usize>)
        ensures
            is_first_at_or_after(self.matches@, position, choice),
    {
        if self.matches.len() == 0 {
            return None;
        }
        let mut i: usize = 0;
        while i < self.matches.len()
            invariant
                0 <= i <= self.matches@.len(),
                forall|j: int| 0 <= j < i ==> !at_or_after(#[trigger] self.matches@[j], position),
            decreases self.matches@.len() - i,
        {
            let found = self.matches[i];
            if found.line > position.0 || (found.line == position.0 && found.start >= position.1) {
                assert(at_or_after(self.matches@[i as int], position));
                return Some(i);
            }
            i = i + 1;
        }
        Some(0)
    }

    /// The first match `position` touches, if any.
    pub fn index_at(&self, position: (usize, usize)) -> (index: Option<usize>)
        ensures
            match index {
                Some(i) => i < self.matches@.len() && touches(self.matches@[i as int], position)
                    && forall|j: int| 0 <= j < i ==> !touches(#[trigger] self.matches@[j], position),
                None => forall|j: int| 0 <= j < self.matches@.len() ==> !touches(#[trigger] self.matches@[j], position),
            },
    {
        let mut i: usize = 0;
        while i < self.matches.len()
            invariant
                0 <= i <= self.matches@.len(),
                forall|j: int| 0 <= j < i ==> !touches(#[trigger] self.matches@[j], position),
            decreases self.matches@.len() - i,
        {
            let found = self.matches[i];
            if position.0 == found.line && position.1 >= found.start && position.1 <= found.end {
                return Some(i);
            }
            i = i + 1;
        }
        None
    }

    /// Steps `current` by `delta` matches, wrapping at both ends (the index
    /// is read as an `isize`, the way a cast reads it). Starts from the
    /// first match at or after `origin` when nothing is selected.
    pub fn step(&mut self, delta: isize)
        requires
            old(self).matches@.len() <= isize::MAX,
            old(self).current matches Some(c) ==> isize::MIN <= (c as isize) + delta <= isize::MAX,
        ensures
            final(self).matches@ == old(self).matches@,
            final(self).query@ == old(self).query@,
            final(self).origin == old(self).origin,
            final(self).open == old(self).open,
            old(self).matches@.len() == 0 ==> final(self).current is None,
            old(self).matches@.len() > 0 ==> match old(self).current {
                Some(c) => final(self).current == Some((((c as isize) + delta) % (old(self).matches@.len() as int)) as usize),
                None => is_first_at_or_after(old(self).matches@, old(self).origin, final(self).current),
            },
    {
        if self.matches.len() == 0 {
            self.current = None;
            return;
        }
        let count = self.matches.len();
        match self.current {
            Some(current) => {
                let next = wrap_index(current as isize, delta, count);
                self.current = Some(next);
            },
            None => {
                self.current = self.first_at_or_after(self.origin);
            },
        }
    }

    /// The match `current` points at, if any.
    pub fn current_match(&self) -> (found: Option<FindMatch>)
        ensures
            found == match self.current {
                Some(i) => if i < self.matches@.len() { Some(self.matches@[i as int]) } else { None },
                None => None,
            },
    {
        match self.current {
            Some(i) => if i < self.matches.len() { Some(self.matches[i]) } else { None },
            None => None,
        }
    }

    /// The palette's counter text: `None` hides it (an empty query),
    /// "No results" when nothing matched, otherwise "<position> of <count>",
    /// the position counting from one, or zero with nothing selected.
    pub fn counter(&self) -> (text: Option<String>)
        requires
            self.current != Some(usize::MAX),
        ensures
            self.query@.len() == 0 ==> text is None,
            self.query@.len() > 0 ==> (text matches Some(t) && t@ == counter_text(self.matches@, self.current)),
    {
        if self.query.as_str().is_empty() {
            return None;
        }
        if self.matches.len() == 0 {
            let t = String::from_str("No results");
            return Some(t);
        }
        let position: usize = match self.current {
            Some(current) => current + 1,
            None => 0,
        };
        let mut t = String::new();
        push_decimal(&mut t, position as u64);
        t.append(" of ");
        push_decimal(&mut t, self.matches.len() as u64);
        assert(t@ =~= counter_text(self.matches@, self.current));
        Some(t)
    }
}

/// `(current + delta)` taken modulo `count`, always in `0..count`.
pub(crate) fn wrap_index(current: isize, delta: isize, count: usize) -> (next: usize)
    requires
        count > 0,
        count <= isize::MAX,
        isize::MIN <= current + delta <= isize::MAX,
    ensures
        next == (current + delta) % (count as int),
        next < count,
{
    let sum: isize = current + delta;
    let n: isize = count as isize;
    if sum >= 0 {
        let r = (sum as usize) % count;
        r
    } else {
        let neg: usize = (0 - (sum as i128)) as usize;
        let r = neg % count;
        let result = if r == 0 { 0 } else { count - r };
        proof {
            lemma_negative_mod(sum as int, count as int, r as int);
        }
        result
    }
}

/// Euclidean remainder of a negative number from the remainder of its
/// absolute value.
proof fn lemma_negative_mod(s: int, n: int, r: int)
    requires
        s < 0,
        n > 0,
        r == (-s) % n,
    ensures
        s % n == if r == 0 { 0 } else { n - r },
{
    let q = (-s) / n;
    assert(-s == q * n + r) by (nonlinear_arith)
        requires r == (-s) % n, n > 0, q == (-s) / n;
    if r == 0 {
        assert(s == (-q) * n) by (nonlinear_arith) requires -s == q * n + r, r == 0;
        assert(s % n == 0) by (nonlinear_arith) requires s == (-q) * n, n > 0;
    } else {
        assert(s == (-q - 1) * n + (n - r)) by (nonlinear_arith) requires -s == q * n + r;
        assert(0 <= r < n) by (nonlinear_arith) requires r == (-s) % n, n > 0;
        assert(s % n == n - r) by (nonlinear_arith)
            requires s == (-q - 1) * n + (n - r), 0 < n - r < n, n > 0;
    }
}

} // verus!
