//! Sequences of waiting times.
//!
//! A [`DelaySequence`] hands out, one call at a time, the time to wait before
//! the next attempt of a retried operation. What a call may do is described
//! by a relation between the state before the call, the delay that comes out
//! and the state after it, so that sequences which draw on chance are
//! covered as well as those that are a function of their state.
use vstd::prelude::*;
use crate::duration::Duration;

verus! {

/// A possibly endless producer of waiting times.
pub trait DelaySequence: Sized {
    /// Whether a call of [`DelaySequence::next`] on `self` may hand out
    /// `delay` and leave the sequence as `after`. A sequence that does not
    /// say so allows every outcome.
    open spec fn yields(self, delay: Option<Duration>, after: Self) -> bool {
        true
    }

    /// Hands out the next delay, or `None` when the sequence has ended.
    fn next(&mut self) -> (delay: Option<Duration>)
        ensures
            old(self).yields(delay, *final(self)),
    ;
}

/// `states` and `delays` record consecutive calls on one sequence: the call on
/// `states[i]` handed out `delays[i]` and left the sequence as
/// `states[i + 1]`.
pub open spec fn is_run<D: DelaySequence>(states: Seq<D>, delays: Seq<Duration>) -> bool {
    &&& states.len() == delays.len() + 1
    &&& forall|i: int|
        0 <= i < delays.len() ==> (#[trigger] states[i]).yields(Some(delays[i]), states[i + 1])
}

/// From `start` on, the sequence hands out at most `limit` delays.
pub open spec fn ends_within<D: DelaySequence>(start: D, limit: nat) -> bool {
    forall|states: Seq<D>, delays: Seq<Duration>|
        #[trigger] is_run(states, delays) && states[0] == start ==> delays.len() <= limit
}

/// The sequence that repeats one interval for ever.
pub struct ConstantInterval {
    interval: Duration,
}

impl ConstantInterval {
    /// The interval that every call hands out.
    pub closed spec fn interval(self) -> Duration {
        self.interval
    }
}

impl DelaySequence for ConstantInterval {
    open spec fn yields(self, delay: Option<Duration>, after: Self) -> bool {
        delay == Some(self.interval()) && after == self
    }

    fn next(&mut self) -> (delay: Option<Duration>) {
        Some(self.interval)
    }
}

/// A sequence that repeats `interval` without end.
pub fn constant_interval(interval: Duration) -> (delays: ConstantInterval)
    ensures
        delays.interval() == interval,
{
    ConstantInterval { interval }
}

/// The first delays of another sequence, up to a fixed count.
pub struct Take<D> {
    inner: D,
    remaining: usize,
}

impl<D: DelaySequence> Take<D> {
    /// The sequence that the delays are taken from.
    pub closed spec fn inner(self) -> D {
        self.inner
    }

    /// How many delays may still be handed out.
    pub closed spec fn remaining(self) -> nat {
        self.remaining as nat
    }

    /// At most the first `count` delays of `inner`.
    pub fn new(inner: D, count: usize) -> (delays: Self)
        ensures
            delays.inner() == inner,
            delays.remaining() == count,
    {
        Take { inner, remaining: count }
    }

    /// A limited sequence never hands out more delays than it has left,
    /// however long the sequence beneath it is.
    pub proof fn lemma_ends_within_remaining(self)
        ensures
            ends_within(self, self.remaining()),
    {
        assert forall|states: Seq<Self>, delays: Seq<Duration>|
            #[trigger] is_run(states, delays) && states[0] == self implies delays.len()
            <= self.remaining() by {
            Self::lemma_run_counts_down(states, delays, delays.len());
        }
    }

    /// After `n` calls of a run the count has gone down by `n`.
    proof fn lemma_run_counts_down(states: Seq<Self>, delays: Seq<Duration>, n: nat)
        requires
            is_run(states, delays),
            n <= delays.len(),
        ensures
            states[n as int].remaining() + n == states[0].remaining(),
        decreases n,
    {
        if n > 0 {
            Self::lemma_run_counts_down(states, delays, (n - 1) as nat);
            assert(states[n - 1].yields(Some(delays[n - 1]), states[n - 1 + 1]));
        }
    }
}

impl<D: DelaySequence> DelaySequence for Take<D> {
    open spec fn yields(self, delay: Option<Duration>, after: Self) -> bool {
        if self.remaining() == 0 {
            delay is None && after == self
        } else {
            &&& after.remaining() == self.remaining() - 1
            &&& self.inner().yields(delay, after.inner())
        }
    }

    fn next(&mut self) -> (delay: Option<Duration>) {
        if self.remaining != 0 {
            self.remaining = self.remaining - 1;
            self.inner.next()
        } else {
            None
        }
    }
}

} // verus!
