use vstd::prelude::*;

use crate::format::MAX_DECIMALS;

verus! {

/// Largest decimal count that a caller may ask the search for.
pub const DECIMAL_LIMIT: usize = 100;

/// What the search asks for next.
#[derive(Clone, Copy, Debug, PartialEq, Eq)]
pub enum SearchStep {
    /// Format the value with this many decimals and tell whether the text parses back to it.
    Candidate(usize),
    /// Give up the search: format the value with this many decimals, the most allowed.
    Final(usize),
}

/// The search for the fewest decimals whose text still reads back as the value shown.
///
/// The candidates are tried one by one from the fewest decimals up: the first that reads back
/// within tolerance wins, and where none does the value is shown with the most decimals.
/// Reading back well is not known to be monotonic in the number of decimals, so the search is
/// linear.
#[derive(Clone, Copy, Debug, PartialEq, Eq)]
pub struct DecimalSearch {
    /// Fewest decimals to show.
    pub min_decimals: usize,
    /// Most decimals to show.
    pub max_decimals: usize,
    /// The next candidate.
    pub next: usize,
}

/// The smaller of two counts.
pub open spec fn min_of(a: usize, b: usize) -> usize {
    if a <= b {
        a
    } else {
        b
    }
}

/// The decimals that a search from this state settles on, where `round_trips(d)` tells whether
/// the text with `d` decimals reads back within tolerance.
pub open spec fn settles_on(s: DecimalSearch, round_trips: spec_fn(nat) -> bool) -> nat
    decreases s.max_decimals - s.next,
{
    if s.next < s.max_decimals {
        if round_trips(s.next as nat) {
            s.next as nat
        } else {
            settles_on(DecimalSearch { next: (s.next + 1) as usize, ..s }, round_trips)
        }
    } else {
        s.max_decimals as nat
    }
}

impl DecimalSearch {
    pub open spec fn wf(&self) -> bool {
        self.min_decimals <= self.next <= self.max_decimals <= MAX_DECIMALS
    }

    /// Starts a search between `min_decimals` and `max_decimals` decimals, both included:
    /// the most is lowered to `MAX_DECIMALS`, and the fewest to the most.
    pub fn new(min_decimals: usize, max_decimals: usize) -> (r: Self)
        requires
            min_decimals <= max_decimals < DECIMAL_LIMIT,
        ensures
            r.wf(),
            r.max_decimals == min_of(max_decimals, MAX_DECIMALS),
            r.min_decimals == min_of(min_decimals, r.max_decimals),
            r.next == r.min_decimals,
    {
        let max_decimals = if max_decimals <= MAX_DECIMALS { max_decimals } else { MAX_DECIMALS };
        let min_decimals = if min_decimals <= max_decimals { min_decimals } else { max_decimals };
        DecimalSearch { min_decimals, max_decimals, next: min_decimals }
    }

    /// The next candidate, or the most decimals once every candidate below them has failed.
    pub fn step(&self) -> (r: SearchStep)
        requires
            self.wf(),
        ensures
            self.next < self.max_decimals ==> r == SearchStep::Candidate(self.next),
            self.next >= self.max_decimals ==> r == SearchStep::Final(self.max_decimals),
    {
        if self.next < self.max_decimals {
            SearchStep::Candidate(self.next)
        } else {
            SearchStep::Final(self.max_decimals)
        }
    }

    /// Records that the current candidate does not read back within tolerance.
    pub fn reject(&mut self)
        requires
            old(self).wf(),
            old(self).next < old(self).max_decimals,
        ensures
            final(self).wf(),
            *final(self) == (DecimalSearch { next: (old(self).next + 1) as usize, ..*old(self) }),
    {
        self.next = self.next + 1;
    }
}

/// A search settles on the fewest decimals from its next candidate up that read back within
/// tolerance, or on the most decimals where no candidate below them does.
pub proof fn lemma_search_settles_on_fewest(s: DecimalSearch, round_trips: spec_fn(nat) -> bool)
    requires
        s.wf(),
    ensures
        s.next <= settles_on(s, round_trips) <= s.max_decimals,
        settles_on(s, round_trips) < s.max_decimals ==> round_trips(settles_on(s, round_trips)),
        forall|d: nat|
            s.next <= d < settles_on(s, round_trips) ==> !#[trigger] round_trips(d),
    decreases s.max_decimals - s.next,
{
    if s.next < s.max_decimals && !round_trips(s.next as nat) {
        let t = DecimalSearch { next: (s.next + 1) as usize, ..s };
        lemma_search_settles_on_fewest(t, round_trips);
        assert forall|d: nat| s.next <= d < settles_on(s, round_trips) implies !#[trigger] round_trips(d) by {
            if d > s.next {
                assert(t.next <= d);
            }
        }
    }
}

} // verus!
