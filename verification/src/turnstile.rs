//! The turnstile that spaces the starts of transfers.
//!
//! A worker about to send its request takes the turnstile, holds it for the configured
//! delay, and lets go as it sends. One worker holds the turnstile at a time, so two
//! requests never start less than the delay apart, however long each then runs.
//! Time is a count of milliseconds from an origin that the caller chooses.

use vstd::prelude::*;

verus! {

/// The turnstile's state: the delay, and the time from which the turnstile is free.
pub struct Turnstile {
    pub delay: u64,
    pub free_at: u64,
}

/// The later of two times.
pub open spec fn later(a: u64, b: u64) -> u64 {
    if a >= b {
        a
    } else {
        b
    }
}

impl Turnstile {
    /// A turnstile that nobody has taken yet.
    pub open spec fn initial(delay: u64) -> Turnstile {
        Turnstile { delay, free_at: 0 }
    }

    /// The time at which a worker that arrives at `now` sends its request: it takes
    /// the turnstile once it is free, and holds it for the delay.
    pub open spec fn start_for(self, now: u64) -> int {
        later(now, self.free_at) + self.delay
    }

    /// The turnstile after a worker that arrived at `now` has gone through. Where the
    /// start time cannot be represented, nobody goes through.
    pub open spec fn after(self, now: u64) -> Turnstile {
        if self.start_for(now) <= u64::MAX {
            Turnstile { delay: self.delay, free_at: self.start_for(now) as u64 }
        } else {
            self
        }
    }

    /// The start time granted to a worker that arrives at `now`, if any.
    pub open spec fn grant(self, now: u64) -> Option<u64> {
        if self.start_for(now) <= u64::MAX {
            Some(self.start_for(now) as u64)
        } else {
            None
        }
    }

    pub fn new(delay: u64) -> (turnstile: Turnstile)
        ensures
            turnstile == Turnstile::initial(delay),
    {
        Turnstile { delay, free_at: 0 }
    }

    /// Takes the turnstile for a worker that arrives at `now`, and returns the time at
    /// which that worker may send its request; `None`, with the turnstile unchanged, if
    /// that time does not fit in 64 bits.
    pub fn pass(&mut self, now: u64) -> (start: Option<u64>)
        ensures
            start == old(self).grant(now),
            *final(self) == old(self).after(now),
    {
        let taken = if now >= self.free_at {
            now
        } else {
            self.free_at
        };
        match taken.checked_add(self.delay) {
            Some(start) => {
                self.free_at = start;
                Some(start)
            },
            None => None,
        }
    }

    /// The turnstile after the workers that arrive at `arrivals`, in that order.
    pub open spec fn after_all(self, arrivals: Seq<u64>) -> Turnstile
        decreases arrivals.len(),
    {
        if arrivals.len() == 0 {
            self
        } else {
            self.after_all(arrivals.drop_last()).after(arrivals.last())
        }
    }

    /// The start time granted to arrival number `i` of `arrivals`, if any.
    pub open spec fn grant_of(self, arrivals: Seq<u64>, i: int) -> Option<u64> {
        self.after_all(arrivals.take(i)).grant(arrivals[i])
    }
}

/// A start is never earlier than the arrival, and never earlier than the delay
/// after the turnstile was last free.
pub proof fn lemma_grant_waits(turnstile: Turnstile, now: u64)
    ensures
        turnstile.grant(now) matches Some(start) ==> start >= now + turnstile.delay && start >= turnstile.free_at
            + turnstile.delay && turnstile.after(now).free_at == start,
        turnstile.after(now).delay == turnstile.delay,
        turnstile.after(now).free_at >= turnstile.free_at,
{
}

/// Going through the turnstile never changes its delay, nor moves back the time from which
/// it is free.
pub proof fn lemma_turnstile_moves_forward(turnstile: Turnstile, arrivals: Seq<u64>)
    ensures
        turnstile.after_all(arrivals).delay == turnstile.delay,
        turnstile.after_all(arrivals).free_at >= turnstile.free_at,
    decreases arrivals.len(),
{
    if arrivals.len() > 0 {
        lemma_turnstile_moves_forward(turnstile, arrivals.drop_last());
        lemma_grant_waits(turnstile.after_all(arrivals.drop_last()), arrivals.last());
    }
}

/// Any two workers that go through the turnstile start at least the delay apart: the one
/// that takes the turnstile later starts no sooner than the delay after the other.
pub proof fn lemma_starts_are_spaced(turnstile: Turnstile, arrivals: Seq<u64>, i: int, j: int)
    requires
        0 <= i < j < arrivals.len(),
        turnstile.grant_of(arrivals, i) is Some,
        turnstile.grant_of(arrivals, j) is Some,
    ensures
        turnstile.grant_of(arrivals, j)->0 - turnstile.grant_of(arrivals, i)->0 >= turnstile.delay,
{
    let before_i = turnstile.after_all(arrivals.take(i));
    let after_i = turnstile.after_all(arrivals.take(i + 1));
    let before_j = turnstile.after_all(arrivals.take(j));
    assert(arrivals.take(i + 1).drop_last() =~= arrivals.take(i));
    assert(arrivals.take(i + 1).last() == arrivals[i]);
    assert(after_i == before_i.after(arrivals[i]));
    lemma_grant_waits(before_i, arrivals[i]);
    lemma_turnstile_moves_forward(turnstile, arrivals.take(i));
    // What follows arrival `i` only moves the turnstile forward.
    let rest = arrivals.subrange(i + 1, j);
    lemma_after_all_splits(turnstile, arrivals.take(i + 1), rest);
    assert(arrivals.take(i + 1) + rest =~= arrivals.take(j));
    lemma_turnstile_moves_forward(after_i, rest);
    lemma_grant_waits(before_j, arrivals[j]);
}

/// Going through a sequence of arrivals is going through its first part, then its rest.
pub proof fn lemma_after_all_splits(turnstile: Turnstile, first: Seq<u64>, rest: Seq<u64>)
    ensures
        turnstile.after_all(first + rest) == turnstile.after_all(first).after_all(rest),
    decreases rest.len(),
{
    if rest.len() == 0 {
        assert(first + rest =~= first);
    } else {
        lemma_after_all_splits(turnstile, first, rest.drop_last());
        assert((first + rest).drop_last() =~= first + rest.drop_last());
        assert((first + rest).last() == rest.last());
    }
}

} // verus!
