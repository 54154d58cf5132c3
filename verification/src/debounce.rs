//! Bursts of activity separated by quiet gaps.
use vstd::prelude::*;

verus! {

/// Nanoseconds that elapsed between `earlier` and `later`; zero when
/// `later` is not after `earlier`, as a monotonic clock's saturating
/// `duration_since` reports it.
pub open spec fn elapsed(later: u64, earlier: u64) -> nat {
    if later >= earlier {
        (later - earlier) as nat
    } else {
        0
    }
}

/// The abstract state of a [`Debounce`]: its quiet window, and when the
/// burst in progress (if any) was last poked.
pub struct DebounceModel {
    pub window: nat,
    pub last_poke: Option<u64>,
}

impl DebounceModel {
    /// Whether a poke at `now` begins a new burst.
    pub open spec fn starts_burst(self, now: u64) -> bool {
        match self.last_poke {
            Some(last) => elapsed(now, last) > self.window,
            None => true,
        }
    }

    /// The state after a poke at `now`.
    pub open spec fn poked(self, now: u64) -> DebounceModel {
        DebounceModel { window: self.window, last_poke: Some(now) }
    }

    /// Whether the burst in progress has gone quiet for longer than the window.
    pub open spec fn settled_at(self, now: u64) -> bool {
        match self.last_poke {
            Some(last) => elapsed(now, last) > self.window,
            None => false,
        }
    }

    /// The state after asking whether the burst settled at `now`.
    pub open spec fn after_settle_check(self, now: u64) -> DebounceModel {
        if self.settled_at(now) {
            DebounceModel { window: self.window, last_poke: None }
        } else {
            self
        }
    }
}

/// Tracks bursts of activity separated by quiet gaps, serving both debounce
/// edges: `poke` reports when a burst starts (the leading edge), and
/// `fire_if_settled` reports when one ends (the trailing edge). Time is
/// handed in by the caller, so it runs without a clock.
pub struct Debounce {
    window: u64,
    last_poke: Option<u64>,
}

impl View for Debounce {
    type V = DebounceModel;

    closed spec fn view(&self) -> DebounceModel {
        DebounceModel { window: self.window as nat, last_poke: self.last_poke }
    }
}

impl Debounce {
    /// A debounce whose bursts end after `window` quiet nanoseconds, with no
    /// burst in progress.
    pub fn new(window: u64) -> (debounce: Self)
        ensures
            debounce@ == (DebounceModel { window: window as nat, last_poke: None }),
    {
        Debounce { window, last_poke: None }
    }

    /// Records activity at `now`. True when this poke begins a new burst:
    /// the previous one either settled or never existed.
    pub fn poke(&mut self, now: u64) -> (new_burst: bool)
        ensures
            new_burst == old(self)@.starts_burst(now),
            final(self)@ == old(self)@.poked(now),
        no_unwind
    {
        let new_burst = match self.last_poke {
            Some(last) => elapsed_since(now, last) > self.window,
            None => true,
        };
        self.last_poke = Some(now);
        new_burst
    }

    /// True once the window has elapsed since the last poke. Consumes the
    /// burst, so it reports true exactly once per burst.
    pub fn fire_if_settled(&mut self, now: u64) -> (fired: bool)
        ensures
            fired == old(self)@.settled_at(now),
            final(self)@ == old(self)@.after_settle_check(now),
        no_unwind
    {
        match self.last_poke {
            Some(last) => {
                if elapsed_since(now, last) > self.window {
                    self.last_poke = None;
                    true
                } else {
                    false
                }
            },
            None => false,
        }
    }

    /// Whether a burst is waiting to settle.
    pub fn pending(&self) -> (waiting: bool)
        ensures
            waiting == (self@.last_poke is Some),
    {
        self.last_poke.is_some()
    }

    /// Forgets the burst; the next poke is a leading edge again.
    pub fn reset(&mut self)
        ensures
            final(self)@ == (DebounceModel { window: old(self)@.window, last_poke: None }),
    {
        self.last_poke = None;
    }
}

/// Nanoseconds from `earlier` to `later`, saturating at zero.
pub fn elapsed_since(later: u64, earlier: u64) -> (nanos: u64)
    ensures
        nanos as nat == elapsed(later, earlier),
    no_unwind
{
    if later >= earlier {
        later - earlier
    } else {
        0
    }
}

/// A settled burst is reported once: asking again at any later time,
/// with no poke in between, reports nothing.
pub proof fn lemma_settled_burst_reports_once(d: DebounceModel, now: u64, later: u64)
    requires
        d.settled_at(now),
    ensures
        !d.after_settle_check(now).settled_at(later),
        d.after_settle_check(now).last_poke is None,
{
}

/// The first poke after a reset, or into a fresh debounce, is a leading edge.
pub proof fn lemma_poke_after_quiet_starts_burst(d: DebounceModel, now: u64)
    requires
        d.last_poke is None,
    ensures
        d.starts_burst(now),
        d.poked(now).last_poke == Some(now),
{
}

/// A poke inside the window extends the burst: it is no leading edge, and
/// the burst cannot settle until the window has passed since that poke.
pub proof fn lemma_poke_inside_window_extends_burst(d: DebounceModel, first: u64, second: u64, check: u64)
    requires
        d.last_poke == Some(first),
        first <= second,
        second - first <= d.window,
        check >= second,
        check - second <= d.window,
    ensures
        !d.starts_burst(second),
        !d.poked(second).settled_at(check),
{
}

/// A burst is pending exactly from its first poke until it settles.
pub proof fn lemma_pending_until_settled(d: DebounceModel, poke_at: u64, check: u64)
    ensures
        d.poked(poke_at).last_poke is Some,
        d.poked(poke_at).settled_at(check) ==> d.poked(poke_at).after_settle_check(check).last_poke is None,
        !d.poked(poke_at).settled_at(check) ==> d.poked(poke_at).after_settle_check(check).last_poke is Some,
{
}

} // verus!
