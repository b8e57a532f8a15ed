//! Jitter: delays shortened by a random factor.
//!
//! A jitter factor is a fraction with denominator [`JITTER_ONE`]. Drawn
//! at random it lies in the half-open interval from zero (excluded) to one
//! (included), so that a jittered delay is never longer than the delay it was
//! made from.
use vstd::prelude::*;
use rand::Rng;
use crate::delay::DelaySequence;
use crate::duration::max_nanos;
use crate::duration::Duration;

verus! {

/// The jitter factor that stands for one: factors count in units of 2^-53.
pub const JITTER_ONE: u64 = 9_007_199_254_740_992;

/// `nanos` scaled by `jitter / JITTER_ONE`, rounded down to a whole
/// nanosecond and held at the longest representable duration.
pub open spec fn jittered_nanos(nanos: nat, jitter: nat) -> nat {
    let scaled = (nanos * jitter) / (JITTER_ONE as nat);
    if scaled <= max_nanos() {
        scaled
    } else {
        max_nanos()
    }
}

/// Whether a random jitter may turn a delay of `plain` nanoseconds into one
/// of `jittered` nanoseconds.
pub open spec fn may_jitter_to(plain: nat, jittered: nat) -> bool {
    exists|jitter: nat|
        1 <= jitter <= JITTER_ONE && jittered == #[trigger] jittered_nanos(plain, jitter)
}

/// A jitter factor of at most one never lengthens a duration, and a factor
/// of exactly one gives a representable duration back to the nanosecond.
pub proof fn lemma_jitter_never_lengthens(nanos: nat, jitter: nat)
    requires
        jitter <= JITTER_ONE,
    ensures
        jittered_nanos(nanos, jitter) <= nanos,
        jitter == JITTER_ONE && nanos <= max_nanos() ==> jittered_nanos(nanos, jitter) == nanos,
{
    let one = JITTER_ONE as nat;
    assert(nanos * jitter <= nanos * one) by (nonlinear_arith)
        requires
            jitter <= one,
    ;
    assert((nanos * one) / one == nanos) by (nonlinear_arith)
        requires
            one > 0,
    ;
    assert((nanos * jitter) / one <= (nanos * one) / one) by (nonlinear_arith)
        requires
            nanos * jitter <= nanos * one,
            one > 0,
    ;
}

/// Draws 64 bits from the thread-local generator of the `rand` crate, by
/// `Rng::gen` on `rand::thread_rng()`. Nothing is claimed of the bits. The
/// generator panics where the system cannot seed it.
#[verifier::external_body]
fn random_bits() -> (bits: u64) {
    rand::thread_rng().gen::<u64>()
}

/// The jitter factor that 64 random bits stand for: their upper 53 bits as
/// a number, plus one. Uniform bits give a uniform factor in `(0, 1]`.
pub fn jitter_from_bits(bits: u64) -> (jitter: u64)
    ensures
        jitter == bits / 2048 + 1,
        1 <= jitter <= JITTER_ONE,
{
    assert(bits >> 11 == bits / 2048 && bits >> 11 < 9_007_199_254_740_992u64) by (bit_vector);
    (bits >> 11) + 1
}

/// Scales `duration` by the factor `jitter / JITTER_ONE`.
pub fn apply_jitter(duration: Duration, jitter: u64) -> (jittered: Duration)
    ensures
        jittered@ == jittered_nanos(duration@, jitter as nat),
        jitter <= JITTER_ONE ==> jittered@ <= duration@,
        jitter == JITTER_ONE ==> jittered@ == duration@,
{
    let secs: u128 = duration.as_secs() as u128;
    let nanos: u128 = duration.subsec_nanos() as u128;
    let factor: u128 = jitter as u128;
    let one: u128 = JITTER_ONE as u128;
    assert(secs * factor <= 0xffff_ffff_ffff_ffff * 0xffff_ffff_ffff_ffff) by (nonlinear_arith)
        requires
            secs <= 0xffff_ffff_ffff_ffff,
            factor <= 0xffff_ffff_ffff_ffff,
    ;
    assert(nanos * factor <= 999_999_999 * 0xffff_ffff_ffff_ffff) by (nonlinear_arith)
        requires
            nanos <= 999_999_999,
            factor <= 0xffff_ffff_ffff_ffff,
    ;
    let scaled_secs: u128 = secs * factor;
    let whole_secs: u128 = scaled_secs / one;
    let rest: u128 = (scaled_secs % one) * 1_000_000_000 + nanos * factor;
    let total: u128 = whole_secs * 1_000_000_000 + rest / one;
    assert(duration@ * jitter == whole_secs * 1_000_000_000 * one + rest) by (nonlinear_arith)
        requires
            duration@ == secs * 1_000_000_000 + nanos,
            factor == jitter,
            scaled_secs == secs * factor,
            scaled_secs == whole_secs * one + scaled_secs % one,
            rest == (scaled_secs % one) * 1_000_000_000 + nanos * factor,
    ;
    assert(total == (duration@ * jitter) / (JITTER_ONE as int));
    proof {
        use_type_invariant(duration);
        duration.lemma_bounded();
        if jitter <= JITTER_ONE {
            lemma_jitter_never_lengthens(duration@, jitter as nat);
        }
    }
    let longest = Duration::max_value();
    if total > longest.as_nanos() {
        longest
    } else {
        Duration::new((total / 1_000_000_000) as u64, (total % 1_000_000_000) as u32)
    }
}

/// Applies a random jitter to a duration: a factor drawn uniformly from
/// `(0, 1]`.
pub fn jitter(dur: Duration) -> (jittered: Duration)
    ensures
        may_jitter_to(dur@, jittered@),
        jittered@ <= dur@,
{
    let factor = jitter_from_bits(random_bits());
    apply_jitter(dur, factor)
}

/// Whether jitter may turn what the sequence beneath handed out, `plain`,
/// into `delay`: the end of the sequence stays the end, and a delay is
/// scaled by a factor in `(0, 1]`.
pub open spec fn is_jittered(plain: Option<Duration>, delay: Option<Duration>) -> bool {
    match plain {
        Some(p) => delay matches Some(d) && may_jitter_to(p@, d@),
        None => delay is None,
    }
}

/// Adds jitter to the delays of another sequence.
pub struct Jittered<I> {
    inner: I,
}

impl<I: DelaySequence> Jittered<I> {
    /// The sequence whose delays are jittered.
    pub closed spec fn inner(self) -> I {
        self.inner
    }

    /// Creates a sequence of the jittered delays of `inner`.
    pub fn jitter(inner: I) -> (jittered: Self)
        ensures
            jittered.inner() == inner,
    {
        Jittered { inner }
    }

    /// Every delay of a jittered sequence comes from a call on the sequence
    /// beneath it and is no longer than the delay which that call handed
    /// out; the jittered sequence ends when the one beneath it does.
    pub proof fn lemma_yields_no_longer(self, delay: Option<Duration>, after: Self)
        requires
            self.yields(delay, after),
        ensures
            exists|plain: Option<Duration>|
                {
                    &&& #[trigger] self.inner().yields(plain, after.inner())
                    &&& plain is None <==> delay is None
                    &&& plain matches Some(p) ==> delay.unwrap()@ <= p@
                },
    {
        let plain = choose|plain: Option<Duration>|
            #[trigger] self.inner().yields(plain, after.inner()) && is_jittered(plain, delay);
        if let Some(p) = plain {
            let factor = choose|factor: nat|
                1 <= factor <= JITTER_ONE && delay.unwrap()@ == #[trigger] jittered_nanos(
                    p@,
                    factor,
                );
            lemma_jitter_never_lengthens(p@, factor);
        }
    }
}

impl<I: DelaySequence> DelaySequence for Jittered<I> {
    open spec fn yields(self, delay: Option<Duration>, after: Self) -> bool {
        exists|plain: Option<Duration>|
            #[trigger] self.inner().yields(plain, after.inner()) && is_jittered(plain, delay)
    }

    fn next(&mut self) -> (delay: Option<Duration>) {
        let plain = self.inner.next();
        let delay = match plain {
            Some(next_value) => Some(jitter(next_value)),
            None => None,
        };
        assert(old(self).inner().yields(plain, self.inner()) && is_jittered(plain, delay));
        delay
    }
}

} // verus!
