//! A span of time with nanosecond resolution.
//!
//! [`Duration`] covers exactly the range of `std::time::Duration`: whole
//! seconds in a `u64` and a sub-second part below one second in nanoseconds.
//! Its mathematical model is the total number of nanoseconds, a `nat`.
use vstd::prelude::*;

verus! {

/// Nanoseconds in one second.
pub const NANOS_PER_SEC: u32 = 1_000_000_000;

/// Nanoseconds in one millisecond.
pub const NANOS_PER_MILLI: u32 = 1_000_000;

/// Nanoseconds in one microsecond.
pub const NANOS_PER_MICRO: u32 = 1_000;

/// The number of nanoseconds in the longest representable [`Duration`].
pub open spec fn max_nanos() -> nat {
    (u64::MAX as nat) * 1_000_000_000 + 999_999_999
}

/// `value * factor`, held at [`max_nanos`] where the product is larger.
pub open spec fn saturating_product(value: nat, factor: nat) -> nat {
    if value * factor <= max_nanos() {
        value * factor
    } else {
        max_nanos()
    }
}

/// A span of time: whole seconds and the nanoseconds beyond them.
#[derive(Clone, Copy, Debug, PartialEq, Eq, Hash, Structural)]
pub struct Duration {
    secs: u64,
    nanos: u32,
}

impl View for Duration {
    type V = nat;

    /// The total number of nanoseconds.
    closed spec fn view(&self) -> nat {
        (self.secs as nat) * 1_000_000_000 + (self.nanos as nat)
    }
}

impl Duration {
    /// The sub-second part stays below one second.
    #[verifier::type_invariant]
    pub closed spec fn valid(self) -> bool {
        self.nanos < NANOS_PER_SEC
    }

    /// A valid duration is no longer than the longest representable one.
    pub proof fn lemma_bounded(self)
        requires
            self.valid(),
        ensures
            self@ <= max_nanos(),
    {
    }

    /// Two valid durations of the same length are the same duration.
    pub proof fn lemma_view_injective(self, other: Duration)
        requires
            self.valid(),
            other.valid(),
            self@ == other@,
        ensures
            self == other,
    {
    }

    /// The duration of no time at all.
    pub fn zero() -> (d: Duration)
        ensures
            d@ == 0,
    {
        Duration { secs: 0, nanos: 0 }
    }

    /// The longest representable duration.
    pub fn max_value() -> (d: Duration)
        ensures
            d@ == max_nanos(),
    {
        Duration { secs: u64::MAX, nanos: 999_999_999 }
    }

    /// A duration of `secs` seconds and `nanos` nanoseconds, where `nanos`
    /// may be a second or more as long as the total is representable.
    pub fn new(secs: u64, nanos: u32) -> (d: Duration)
        requires
            secs + nanos / NANOS_PER_SEC <= u64::MAX,
        ensures
            d@ == secs * 1_000_000_000 + nanos,
    {
        let carry: u64 = (nanos / NANOS_PER_SEC) as u64;
        Duration { secs: secs + carry, nanos: nanos % NANOS_PER_SEC }
    }

    /// A duration of whole seconds.
    pub fn from_secs(secs: u64) -> (d: Duration)
        ensures
            d@ == secs * 1_000_000_000,
    {
        Duration { secs, nanos: 0 }
    }

    /// A duration of whole milliseconds.
    pub fn from_millis(millis: u64) -> (d: Duration)
        ensures
            d@ == millis * 1_000_000,
    {
        let sub: u32 = (millis % 1_000) as u32;
        Duration { secs: millis / 1_000, nanos: sub * NANOS_PER_MILLI }
    }

    /// A duration of whole microseconds.
    pub fn from_micros(micros: u64) -> (d: Duration)
        ensures
            d@ == micros * 1_000,
    {
        let sub: u32 = (micros % 1_000_000) as u32;
        Duration { secs: micros / 1_000_000, nanos: sub * NANOS_PER_MICRO }
    }

    /// The whole seconds of this duration.
    pub fn as_secs(&self) -> (secs: u64)
        ensures
            secs == self@ / 1_000_000_000,
    {
        proof {
            use_type_invariant(self);
        }
        self.secs
    }

    /// The part of this duration beyond its whole seconds, in nanoseconds.
    pub fn subsec_nanos(&self) -> (nanos: u32)
        ensures
            nanos == self@ % 1_000_000_000,
            nanos < NANOS_PER_SEC,
    {
        proof {
            use_type_invariant(self);
        }
        self.nanos
    }

    /// The total number of nanoseconds.
    pub fn as_nanos(&self) -> (nanos: u128)
        ensures
            nanos == self@,
            nanos <= max_nanos(),
    {
        proof {
            use_type_invariant(self);
        }
        self.secs as u128 * 1_000_000_000 + self.nanos as u128
    }

    /// `self - rhs`, or `None` where `rhs` is the longer of the two.
    pub fn checked_sub(self, rhs: Duration) -> (diff: Option<Duration>)
        ensures
            match diff {
                Some(d) => rhs@ <= self@ && d@ == self@ - rhs@,
                None => rhs@ > self@,
            },
    {
        proof {
            use_type_invariant(self);
            use_type_invariant(rhs);
        }
        if self.secs < rhs.secs {
            return None;
        }
        let secs: u64 = self.secs - rhs.secs;
        if self.nanos >= rhs.nanos {
            Some(Duration { secs, nanos: self.nanos - rhs.nanos })
        } else if secs > 0 {
            Some(Duration { secs: secs - 1, nanos: self.nanos + NANOS_PER_SEC - rhs.nanos })
        } else {
            None
        }
    }

    /// `self * factor`, or the longest representable duration where the
    /// product is longer than that.
    pub fn saturating_mul(self, factor: u32) -> (product: Duration)
        ensures
            product@ == saturating_product(self@, factor as nat),
    {
        proof {
            use_type_invariant(self);
        }
        assert(self.nanos * factor <= 999_999_999 * 0xffff_ffff) by (nonlinear_arith)
            requires
                self.nanos <= 999_999_999,
                factor <= 0xffff_ffff,
        ;
        let scaled_nanos: u64 = self.nanos as u64 * factor as u64;
        let carry: u64 = scaled_nanos / 1_000_000_000;
        let nanos: u32 = (scaled_nanos % 1_000_000_000) as u32;
        assert(self.secs * factor <= 0xffff_ffff_ffff_ffff * 0xffff_ffff) by (nonlinear_arith)
            requires
                self.secs <= 0xffff_ffff_ffff_ffff,
                factor <= 0xffff_ffff,
        ;
        let secs: u128 = self.secs as u128 * factor as u128 + carry as u128;
        assert(self@ * factor == secs * 1_000_000_000 + nanos) by (nonlinear_arith)
            requires
                self@ == self.secs * 1_000_000_000 + self.nanos,
                secs == self.secs * factor + carry,
                self.nanos * factor == carry * 1_000_000_000 + nanos,
        ;
        if secs > u64::MAX as u128 {
            Duration::max_value()
        } else {
            Duration { secs: secs as u64, nanos }
        }
    }
}

} // verus!
