//! Exponential back-off: delays that grow by a constant factor.
//!
//! The first delay is the initial one and each later delay is the one before
//! it times the factor. The growth is held at the longest representable
//! duration, and at a maximum delay where one is set.
use vstd::prelude::*;
use vstd::arithmetic::power::pow;
use crate::delay::DelaySequence;
use crate::duration::max_nanos;
use crate::duration::saturating_product;
use crate::duration::Duration;

verus! {

/// The mathematical state of an [`ExponentialBackoff`], in nanoseconds.
pub struct BackoffView {
    /// The delay that the growth has reached.
    pub next: nat,
    /// The factor by which the delay grows from call to call.
    pub factor: nat,
    /// The maximum delay, where one is set.
    pub max_delay: Option<nat>,
}

/// The `n`-th delay (counted from 0) of a growth that nothing holds back.
pub open spec fn unbounded_delay(initial: nat, factor: nat, n: nat) -> int {
    initial * pow(factor as int, n)
}

/// `value`, held at the longest representable duration and at `max_delay`.
pub open spec fn held(value: int, max_delay: Option<nat>) -> int {
    let saturated = if value <= max_nanos() {
        value
    } else {
        max_nanos() as int
    };
    match max_delay {
        Some(limit) if saturated > limit => limit as int,
        _ => saturated,
    }
}

impl BackoffView {
    /// Every duration in the state is representable.
    pub open spec fn wf(self) -> bool {
        &&& self.next <= max_nanos()
        &&& self.max_delay matches Some(limit) ==> limit <= max_nanos()
    }

    /// The growth has passed the maximum delay.
    pub open spec fn clamped(self) -> bool {
        self.max_delay matches Some(limit) && self.next > limit
    }

    /// The delay that the next call hands out.
    pub open spec fn output(self) -> nat {
        match self.max_delay {
            Some(limit) if self.next > limit => limit,
            _ => self.next,
        }
    }

    /// The state after the next call. A call that hands out the maximum
    /// delay leaves the state as it is.
    pub open spec fn step(self) -> BackoffView {
        if self.clamped() {
            self
        } else {
            BackoffView { next: saturating_product(self.next, self.factor), ..self }
        }
    }

    /// The state after `n` calls.
    pub open spec fn after(self, n: nat) -> BackoffView
        decreases n,
    {
        if n == 0 {
            self
        } else {
            self.after((n - 1) as nat).step()
        }
    }

    /// The delay that the call after `n` earlier calls hands out.
    pub open spec fn nth(self, n: nat) -> nat {
        self.after(n).output()
    }

    /// Calls change neither the factor nor the maximum delay, and keep the
    /// state well formed.
    pub proof fn lemma_after_keeps_settings(self, n: nat)
        requires
            self.wf(),
        ensures
            self.after(n).wf(),
            self.after(n).factor == self.factor,
            self.after(n).max_delay == self.max_delay,
        decreases n,
    {
        if n > 0 {
            self.lemma_after_keeps_settings((n - 1) as nat);
        }
    }

    /// Once the growth has passed the maximum delay the state stays as it is.
    pub proof fn lemma_clamped_stays(self, n: nat)
        requires
            self.clamped(),
        ensures
            self.after(n) == self,
        decreases n,
    {
        if n > 0 {
            self.lemma_clamped_stays((n - 1) as nat);
        }
    }

    /// With a factor of one or more, the state after `n` calls holds the
    /// saturated `n`-th delay of the unbounded growth, unless the growth
    /// passed the maximum delay before and has stayed beyond it.
    proof fn lemma_after_tracks_growth(self, n: nat)
        requires
            self.wf(),
            self.factor >= 1,
        ensures
            unbounded_delay(self.next, self.factor, n) >= 0,
            self.after(n).next == held(unbounded_delay(self.next, self.factor, n), None) || (
            self.after(n).clamped() && held(unbounded_delay(self.next, self.factor, n), None)
                > self.max_delay.unwrap()),
        decreases n,
    {
        reveal_with_fuel(pow, 2);
        if n > 0 {
            let m = (n - 1) as nat;
            self.lemma_after_tracks_growth(m);
            self.lemma_after_keeps_settings(m);
            lemma_growth_step(self.next, self.factor, m);
        }
    }

    /// With a factor of one or more, the `n`-th delay is the initial delay
    /// times the `n`-th power of the factor, for as long as that product is
    /// representable and within the maximum delay; from then on it is the
    /// smaller of those two bounds.
    pub proof fn lemma_nth_is_held_growth(self, n: nat)
        requires
            self.wf(),
            self.factor >= 1,
        ensures
            self.nth(n) == held(unbounded_delay(self.next, self.factor, n), self.max_delay),
    {
        self.lemma_after_tracks_growth(n);
        self.lemma_after_keeps_settings(n);
    }

    /// No delay is longer than the maximum delay. Once the unbounded growth
    /// has passed the maximum delay, every later call hands out exactly the
    /// maximum delay.
    pub proof fn lemma_max_delay_bounds(self, k: nat, n: nat)
        requires
            self.wf(),
            self.max_delay is Some,
        ensures
            self.nth(n) <= self.max_delay.unwrap(),
            k <= n && unbounded_delay(self.next, self.factor, k) > self.max_delay.unwrap()
                ==> self.nth(n) == self.max_delay.unwrap(),
    {
        self.lemma_after_keeps_settings(n);
        if k <= n && unbounded_delay(self.next, self.factor, k) > self.max_delay.unwrap() {
            if self.factor >= 1 {
                self.lemma_nth_is_held_growth(n);
                lemma_growth_increases(self.next, self.factor, k, n);
            } else {
                if k > 0 {
                    vstd::arithmetic::power::lemma0_pow(k);
                    assert(self.next * 0 == 0) by (nonlinear_arith);
                }
                vstd::arithmetic::power::lemma_pow0(0);
                assert(self.next * 1 == self.next) by (nonlinear_arith);
                self.lemma_clamped_stays(n);
            }
        }
    }

    /// Without a maximum delay and with a factor of one or more, a growth
    /// whose second delay reaches the longest representable duration hands
    /// that duration out from the second call on.
    pub proof fn lemma_saturation_stays(self, n: nat)
        requires
            self.wf(),
            self.max_delay is None,
            self.factor >= 1,
            self.next * self.factor >= max_nanos(),
            n >= 1,
        ensures
            self.nth(n) == max_nanos(),
    {
        self.lemma_nth_is_held_growth(n);
        lemma_growth_increases(self.next, self.factor, 1, n);
        vstd::arithmetic::power::lemma_pow1(self.factor as int);
    }

    /// An initial delay of zero stays zero, whatever the factor.
    pub proof fn lemma_zero_stays_zero(self, n: nat)
        requires
            self.next == 0,
        ensures
            self.after(n).next == 0,
            self.nth(n) == 0,
        decreases n,
    {
        if n > 0 {
            self.lemma_zero_stays_zero((n - 1) as nat);
            assert(0 * self.after((n - 1) as nat).factor == 0) by (nonlinear_arith);
        }
    }

    /// With a factor of zero, and an initial delay within the maximum delay,
    /// the first delay is the initial one and every later delay is zero.
    pub proof fn lemma_zero_factor(self, n: nat)
        requires
            self.wf(),
            self.factor == 0,
            !self.clamped(),
        ensures
            self.nth(0) == self.next,
            n >= 1 ==> self.nth(n) == 0,
        decreases n,
    {
        if n > 1 {
            self.lemma_zero_factor((n - 1) as nat);
            self.lemma_after_keeps_settings((n - 1) as nat);
            assert(self.after((n - 1) as nat).next * 0 == 0) by (nonlinear_arith);
        } else if n == 1 {
            assert(self.after(0) == self);
            assert(self.next * 0 == 0) by (nonlinear_arith);
        }
    }
}

/// One more factor takes the `n`-th delay of the unbounded growth to the
/// next one, and saturating on the way changes nothing.
proof fn lemma_growth_step(initial: nat, factor: nat, n: nat)
    requires
        factor >= 1,
        unbounded_delay(initial, factor, n) >= 0,
    ensures
        unbounded_delay(initial, factor, n + 1) == unbounded_delay(initial, factor, n) * factor,
        unbounded_delay(initial, factor, n + 1) >= unbounded_delay(initial, factor, n),
        saturating_product(held(unbounded_delay(initial, factor, n), None) as nat, factor) == held(
            unbounded_delay(initial, factor, n + 1),
            None,
        ),
{
    reveal_with_fuel(pow, 2);
    let p = pow(factor as int, n);
    let u = unbounded_delay(initial, factor, n);
    assert(initial * (factor * p) == (initial * p) * factor) by (nonlinear_arith);
    assert(u * factor >= u) by (nonlinear_arith)
        requires
            u >= 0,
            factor >= 1,
    ;
    let limit = max_nanos();
    assert(limit * factor >= limit) by (nonlinear_arith)
        requires
            limit >= 0,
            factor >= 1,
    ;
}

/// With a factor of one or more the unbounded growth never shrinks.
proof fn lemma_growth_increases(initial: nat, factor: nat, k: nat, n: nat)
    requires
        factor >= 1,
        k <= n,
    ensures
        0 <= unbounded_delay(initial, factor, k) <= unbounded_delay(initial, factor, n),
    decreases n - k,
{
    vstd::arithmetic::power::lemma_pow_positive(factor as int, k);
    assert(initial * pow(factor as int, k) >= 0) by (nonlinear_arith)
        requires
            pow(factor as int, k) > 0,
    ;
    if k < n {
        lemma_growth_step(initial, factor, k);
        lemma_growth_increases(initial, factor, k + 1, n);
    }
}

/// Provides an exponential back-off timer to delay the next retry of a
/// failed operation.
pub struct ExponentialBackoff {
    next: Duration,
    factor: u32,
    max_delay: Option<Duration>,
}

impl View for ExponentialBackoff {
    type V = BackoffView;

    closed spec fn view(&self) -> BackoffView {
        BackoffView {
            next: self.next@,
            factor: self.factor as nat,
            max_delay: match self.max_delay {
                Some(limit) => Some(limit@),
                None => None,
            },
        }
    }
}

impl ExponentialBackoff {
    /// Creates an `ExponentialBackoff` starting with the provided duration.
    ///
    /// All else staying the same, the first delay will be `initial` long, the
    /// second one will be `initial * factor`, the third `initial * factor^2`
    /// and so on.
    pub fn new(initial: Duration, factor: u32) -> (backoff: ExponentialBackoff)
        ensures
            backoff@ == (BackoffView { next: initial@, factor: factor as nat, max_delay: None }),
            backoff@.wf(),
    {
        proof {
            use_type_invariant(initial);
            initial.lemma_bounded();
        }
        ExponentialBackoff { next: initial, factor, max_delay: None }
    }

    /// Sets the maximum delay. By default there is none, and the limit is
    /// the longest representable duration.
    pub fn max_delay(self, duration: Duration) -> (backoff: ExponentialBackoff)
        ensures
            backoff@ == (BackoffView { max_delay: Some(duration@), ..self@ }),
            backoff@.wf(),
    {
        proof {
            use_type_invariant(duration);
            duration.lemma_bounded();
            use_type_invariant(self.next);
            self.next.lemma_bounded();
        }
        ExponentialBackoff { next: self.next, factor: self.factor, max_delay: Some(duration) }
    }

    /// Returns the value of the delay and advances the next back-off delay.
    pub fn next_delay(&mut self) -> (delay: Duration)
        ensures
            delay@ == old(self)@.output(),
            final(self)@ == old(self)@.step(),
            final(self)@.wf(),
    {
        let next = self.next;
        proof {
            use_type_invariant(next);
            next.lemma_bounded();
        }
        if let Some(max_delay) = self.max_delay {
            proof {
                use_type_invariant(max_delay);
                max_delay.lemma_bounded();
            }
            if next > max_delay {
                return max_delay;
            }
        }
        let product = next.saturating_mul(self.factor);
        proof {
            use_type_invariant(product);
            product.lemma_bounded();
        }
        self.next = product;
        next
    }
}

impl DelaySequence for ExponentialBackoff {
    /// A call hands out the delay that the state stands for and moves the
    /// state one step on; the sequence never ends.
    open spec fn yields(self, delay: Option<Duration>, after: Self) -> bool {
        &&& delay matches Some(d)
        &&& d@ == self@.output()
        &&& after@ == self@.step()
    }

    fn next(&mut self) -> (delay: Option<Duration>) {
        Some(self.next_delay())
    }
}

} // verus!
