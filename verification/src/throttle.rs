//! Spacing requests so that a provider's published rate is never exceeded.
//!
//! Instants and intervals are in nanoseconds. What counts is when a request is
//! released, not when it is answered: a slow response earns the next caller no
//! free slot.

use vstd::prelude::*;

verus! {

/// Lets a request go at most once per interval. Whoever holds one has to keep
/// others out from [`Throttle::delay`] until [`Throttle::release`], so that
/// callers queue.
#[derive(Debug, Clone, Copy, PartialEq, Eq, Structural)]
pub struct Throttle {
    pub interval: u64,
    pub last: Option<u64>,
}

/// How long a caller has to wait at `now`.
pub open spec fn wait(interval: int, last: Option<u64>, now: int) -> int {
    match last {
        Some(prev) => if prev + interval > now {
            prev + interval - now
        } else {
            0
        },
        None => 0,
    }
}

impl Throttle {
    /// A throttle through which nothing has gone yet.
    pub fn new(interval: u64) -> (t: Throttle)
        ensures
            t == (Throttle { interval, last: None }),
    {
        Throttle { interval, last: None }
    }

    /// How long a caller at `now` has to wait before its request may go.
    pub fn delay(&self, now: u64) -> (d: u128)
        ensures
            d as int == wait(self.interval as int, self.last, now as int),
    {
        match self.last {
            Some(prev) => {
                let due: u128 = prev as u128 + self.interval as u128;
                if due > now as u128 {
                    due - now as u128
                } else {
                    0
                }
            },
            None => 0,
        }
    }

    /// Claims the slot of a request that goes at `now`.
    pub fn release(&mut self, now: u64)
        ensures
            *final(self) == (Throttle { interval: old(self).interval, last: Some(now) }),
    {
        self.last = Some(now);
    }
}

/// One request: when it was asked for and when it was released.
pub struct Passage {
    pub asked: u64,
    pub released: u64,
}

/// Whether the passages went one after another through a throttle that had
/// seen nothing before them, none of them before its wait was over.
pub open spec fn passed(interval: u64, passages: Seq<Passage>) -> bool {
    forall|i: int|
        0 <= i < passages.len() ==> (#[trigger] passages[i]).released >= passages[i].asked + wait(
            interval as int,
            if i == 0 {
                None
            } else {
                Some(passages[i - 1].released)
            },
            passages[i].asked as int,
        )
}

/// The first request is not delayed.
pub proof fn first_request_is_not_delayed(interval: u64, now: u64)
    ensures
        wait(interval as int, None, now as int) == 0,
{
}

/// A caller that comes an interval or more after the last release is not
/// delayed, however long it stayed away; it has earned nothing more either.
pub proof fn idling_costs_nothing(interval: u64, prev: u64, now: u64)
    requires
        now >= prev + interval,
    ensures
        wait(interval as int, Some(prev), now as int) == 0,
{
}

/// A caller that comes at the moment of the last release waits one interval.
pub proof fn back_to_back_waits_an_interval(interval: u64, prev: u64)
    ensures
        wait(interval as int, Some(prev), prev as int) == interval,
{
}

/// However the callers come, any two releases are as many intervals apart as
/// there are requests from one to the other.
pub proof fn releases_are_spaced(interval: u64, passages: Seq<Passage>, i: int, j: int)
    requires
        passed(interval, passages),
        0 <= i <= j < passages.len(),
    ensures
        passages[j].released - passages[i].released >= (j - i) * interval,
    decreases j - i,
{
    if i < j {
        releases_are_spaced(interval, passages, i, j - 1);
        assert(passages[j].released >= passages[j - 1].released + interval);
        assert((j - i) * interval == (j - 1 - i) * interval + interval) by (nonlinear_arith);
    } else {
        assert((j - i) * interval == 0) by (nonlinear_arith)
            requires
                i == j,
        ;
    }
}

/// Nobody waits longer than it takes: a caller that has to wait goes exactly one
/// interval after the last release.
pub proof fn waits_are_no_longer_than_needed(interval: u64, prev: u64, now: u64)
    ensures
        wait(interval as int, Some(prev), now as int) >= 0,
        wait(interval as int, Some(prev), now as int) > 0 ==> now + wait(
            interval as int,
            Some(prev),
            now as int,
        ) == prev + interval,
        now + wait(interval as int, Some(prev), now as int) >= prev + interval,
{
}

} // verus!
