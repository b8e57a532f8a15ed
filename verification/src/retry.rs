//! Retrying an operation until its result is accepted.
//!
//! A [`RetryFuture`] holds what one retry session needs: the factory that
//! starts an attempt, the rule that judges a result, and the delays between
//! attempts. It takes the decisions of the session; whoever drives it awaits
//! the attempts and sleeps through the delays:
//!
//! 1. [`RetryFuture::attempt`] starts an attempt;
//! 2. once its result is there, [`RetryFuture::judge`] says whether the
//!    session is over, or how long to wait before the next attempt.
//!
//! A session has no error of its own. It ends when the rule accepts a result
//! or when the delays have run out, and hands back the last result either way.
use vstd::prelude::*;
use crate::delay::ends_within;
use crate::delay::is_run;
use crate::delay::DelaySequence;
use crate::delay::Take;
use crate::duration::Duration;

verus! {

/// What follows a judged attempt.
pub enum Progress<T> {
    /// The session is over, with this result.
    Finished(T),
    /// Another attempt follows after a wait of this length.
    Retry(Duration),
}

/// Type representing an operation that is repeated until some condition is
/// true.
pub struct RetryFuture<F, R, D> {
    factory: F,
    should_retry: R,
    delays: D,
}

impl<F, R, D: DelaySequence> RetryFuture<F, R, D> {
    /// The function that starts an attempt.
    pub closed spec fn factory(self) -> F {
        self.factory
    }

    /// The rule that says of a result whether another attempt is wanted.
    pub closed spec fn should_retry(self) -> R {
        self.should_retry
    }

    /// The delays that are left for the waits between attempts.
    pub closed spec fn delays(self) -> D {
        self.delays
    }

    /// Whether the session may go from `self` to `after` by a retry that
    /// waits for `delay`: the delay comes from the session's delays, and
    /// nothing else changes.
    pub open spec fn retries(self, delay: Duration, after: Self) -> bool {
        &&& self.delays().yields(Some(delay), after.delays())
        &&& after.factory() == self.factory()
        &&& after.should_retry() == self.should_retry()
    }

    /// The session is still what it was, but for its delays, which met a
    /// call that handed out nothing.
    pub open spec fn ran_out(self, after: Self) -> bool {
        &&& self.delays().yields(None, after.delays())
        &&& after.factory() == self.factory()
        &&& after.should_retry() == self.should_retry()
    }

    /// Repeats the operations generated by `factory` until `should_retry`
    /// returns `false`. `delays` gives the intervals between retry attempts.
    pub fn new(factory: F, should_retry: R, delays: D) -> (session: Self)
        ensures
            session.factory() == factory,
            session.should_retry() == should_retry,
            session.delays() == delays,
    {
        RetryFuture { factory, should_retry, delays }
    }

    /// Returns a new [`RetryFuture`] with a different `should_retry` rule.
    pub fn set_should_retry<NewR>(self, should_retry: NewR) -> (session: RetryFuture<F, NewR, D>)
        ensures
            session.factory() == self.factory(),
            session.should_retry() == should_retry,
            session.delays() == self.delays(),
    {
        RetryFuture { factory: self.factory, should_retry, delays: self.delays }
    }

    /// Returns a new [`RetryFuture`] with different `delays`.
    pub fn set_delays<NewD: DelaySequence>(self, delays: NewD) -> (session: RetryFuture<
        F,
        R,
        NewD,
    >)
        ensures
            session.factory() == self.factory(),
            session.should_retry() == self.should_retry(),
            session.delays() == delays,
    {
        RetryFuture { factory: self.factory, should_retry: self.should_retry, delays }
    }

    /// Starts an attempt: calls the factory once and hands back what it
    /// made. The session itself stays as it is.
    pub fn attempt<O>(&mut self) -> (operation: O) where F: FnMut() -> O
        requires
            call_requires(old(self).factory(), ()),
        ensures
            call_ensures(old(self).factory(), (), operation),
            *final(self) == *old(self),
    {
        (self.factory)()
    }

    /// Judges the result of an attempt.
    ///
    /// Where the rule does not ask for a retry, the session is over and the
    /// result comes back, with the delays untouched. Where it does, the next
    /// delay is taken: the session goes on after that wait, or, when the
    /// delays have run out, is over with this result.
    pub fn judge<T>(&mut self, result: T) -> (progress: Progress<T>) where R: FnMut(&T) -> bool
        requires
            call_requires(old(self).should_retry(), (&result,)),
        ensures
            match progress {
                Progress::Retry(delay) => {
                    &&& call_ensures(old(self).should_retry(), (&result,), true)
                    &&& old(self).retries(delay, *final(self))
                },
                Progress::Finished(last) => {
                    &&& last == result
                    &&& {
                        ||| {
                            &&& call_ensures(old(self).should_retry(), (&result,), false)
                            &&& *final(self) == *old(self)
                        }
                        ||| {
                            &&& call_ensures(old(self).should_retry(), (&result,), true)
                            &&& old(self).ran_out(*final(self))
                        }
                    }
                },
            },
    {
        if (self.should_retry)(&result) {
            if let Some(delay) = self.delays.next() {
                return Progress::Retry(delay);
            }
        }
        Progress::Finished(result)
    }

    /// `sessions` and `delays` record the retries of one session: from
    /// `sessions[i]` the session went on to `sessions[i + 1]` after a wait of
    /// `delays[i]`.
    pub open spec fn is_retry_run(sessions: Seq<Self>, delays: Seq<Duration>) -> bool {
        &&& sessions.len() == delays.len() + 1
        &&& forall|i: int|
            0 <= i < delays.len() ==> (#[trigger] sessions[i]).retries(delays[i], sessions[i + 1])
    }

    /// A session whose delays end within `limit` calls retries at most
    /// `limit` times, whatever its rule says of the results: it cannot go on
    /// for ever.
    pub proof fn lemma_retries_end(sessions: Seq<Self>, delays: Seq<Duration>, limit: nat)
        requires
            Self::is_retry_run(sessions, delays),
            ends_within(sessions[0].delays(), limit),
        ensures
            delays.len() <= limit,
    {
        let states = Seq::new(sessions.len(), |i: int| sessions[i].delays());
        assert forall|i: int| 0 <= i < delays.len() implies (#[trigger] states[i]).yields(
            Some(delays[i]),
            states[i + 1],
        ) by {
            assert(sessions[i].retries(delays[i], sessions[i + 1]));
        }
        assert(is_run(states, delays) && states[0] == sessions[0].delays());
    }
}

impl<F, R, D: DelaySequence> RetryFuture<F, R, Take<D>> {
    /// A session over at most `k` delays retries at most `k` times, however
    /// long the sequence is that the delays are taken from.
    pub proof fn lemma_retries_at_most_remaining(sessions: Seq<Self>, delays: Seq<Duration>)
        requires
            Self::is_retry_run(sessions, delays),
        ensures
            delays.len() <= sessions[0].delays().remaining(),
    {
        sessions[0].delays().lemma_ends_within_remaining();
        Self::lemma_retries_end(sessions, delays, sessions[0].delays().remaining());
    }
}

/// A session that retries the operations of `factory` until `should_retry`
/// says that it should stop, or until `delays` has run out.
pub fn retry_future<F, R, D: DelaySequence>(factory: F, should_retry: R, delays: D) -> (session:
    RetryFuture<F, R, D>)
    ensures
        session.factory() == factory,
        session.should_retry() == should_retry,
        session.delays() == delays,
{
    RetryFuture::new(factory, should_retry, delays)
}

/// A session that works like that of [`retry_future`] but limits the number
/// of retries to `max_retries`.
pub fn retry_future_n<F, R, D: DelaySequence>(
    factory: F,
    should_retry: R,
    delays: D,
    max_retries: usize,
) -> (session: RetryFuture<F, R, Take<D>>)
    ensures
        session.factory() == factory,
        session.should_retry() == should_retry,
        session.delays().inner() == delays,
        session.delays().remaining() == max_retries,
{
    retry_future(factory, should_retry, Take::new(delays, max_retries))
}

} // verus!
