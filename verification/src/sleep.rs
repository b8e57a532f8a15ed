//! Long waits cut into segments.
//!
//! Timers tend to misbehave when a single wait runs for too long. A wait is
//! therefore handed out as a row of segments, none longer than
//! [`MAX_SINGLE_DELAY_SECS`] seconds, that add up to the wait that was asked
//! for. Whoever sleeps takes the segments one after the other.
use vstd::prelude::*;
use crate::duration::Duration;

verus! {

/// The longest single segment of a wait, in seconds.
pub const MAX_SINGLE_DELAY_SECS: u64 = 60;

/// The longest single segment of a wait, in nanoseconds.
pub open spec fn max_single_delay() -> nat {
    60_000_000_000
}

/// The length of the next segment of a wait with `rest` nanoseconds still to
/// be handed out: the longest single segment while more than that is left,
/// and then all that is left.
pub open spec fn next_segment_of(rest: nat) -> nat {
    if rest > max_single_delay() {
        max_single_delay()
    } else {
        rest
    }
}

/// What is left of a wait with `rest` nanoseconds still to be handed out
/// once its next segment is gone; `None` when that segment was the last.
pub open spec fn left_after_segment(rest: nat) -> Option<nat> {
    if rest > max_single_delay() {
        Some((rest - max_single_delay()) as nat)
    } else {
        None
    }
}

/// The segments, in nanoseconds, of a wait with `remaining` nanoseconds
/// still to be handed out; `None` stands for a wait whose last segment has
/// been handed out. A wait of no time at all still has one segment.
pub open spec fn segments(remaining: Option<nat>) -> Seq<nat>
    decreases remaining.unwrap_or(0),
{
    match remaining {
        None => Seq::empty(),
        Some(rest) => if rest > max_single_delay() {
            seq![max_single_delay()] + segments(Some((rest - max_single_delay()) as nat))
        } else {
            seq![rest]
        },
    }
}

/// The sum of the members of `parts`.
pub open spec fn total(parts: Seq<nat>) -> nat
    decreases parts.len(),
{
    if parts.len() == 0 {
        0
    } else {
        parts[0] + total(parts.subrange(1, parts.len() as int))
    }
}

/// The segments of a wait add up to the wait, none of them is longer than
/// the longest single segment, and all but the last are exactly that long.
pub proof fn lemma_segments_add_up(delay: nat)
    ensures
        total(segments(Some(delay))) == delay,
        segments(Some(delay)).len() >= 1,
        forall|i: int|
            0 <= i < segments(Some(delay)).len() ==> #[trigger] segments(Some(delay))[i]
                <= max_single_delay(),
        forall|i: int|
            0 <= i < segments(Some(delay)).len() - 1 ==> #[trigger] segments(Some(delay))[i]
                == max_single_delay(),
    decreases delay,
{
    let parts = segments(Some(delay));
    reveal_with_fuel(total, 2);
    if delay > max_single_delay() {
        let rest = (delay - max_single_delay()) as nat;
        lemma_segments_add_up(rest);
        assert(parts.subrange(1, parts.len() as int) =~= segments(Some(rest)));
        assert forall|i: int| 0 <= i < parts.len() implies #[trigger] parts[i]
            <= max_single_delay() by {
            if i > 0 {
                assert(parts[i] == segments(Some(rest))[i - 1]);
            }
        }
        assert forall|i: int| 0 <= i < parts.len() - 1 implies #[trigger] parts[i]
            == max_single_delay() by {
            if i > 0 {
                assert(parts[i] == segments(Some(rest))[i - 1]);
            }
        }
    } else {
        assert(parts.subrange(1, parts.len() as int) =~= Seq::<nat>::empty());
    }
}

/// A wait in progress: what is left of it to be handed out.
pub struct Sleep {
    remaining: Option<Duration>,
}

impl View for Sleep {
    type V = Option<nat>;

    /// The nanoseconds still to be handed out, or `None` once the last
    /// segment has been handed out.
    closed spec fn view(&self) -> Option<nat> {
        match self.remaining {
            Some(rest) => Some(rest@),
            None => None,
        }
    }
}

impl Sleep {
    /// Hands out the next segment of the wait, or `None` when the wait is
    /// over.
    pub fn next_segment(&mut self) -> (segment: Option<Duration>)
        ensures
            match old(self)@ {
                Some(rest) => {
                    &&& segment matches Some(part)
                    &&& part@ == next_segment_of(rest)
                    &&& final(self)@ == left_after_segment(rest)
                },
                None => segment is None && final(self)@ is None,
            },
            segments(old(self)@) == match segment {
                Some(part) => seq![part@] + segments(final(self)@),
                None => Seq::empty(),
            },
    {
        match self.remaining {
            None => None,
            Some(rest) => {
                let ceiling = Duration::from_secs(MAX_SINGLE_DELAY_SECS);
                match rest.checked_sub(ceiling) {
                    Some(left) if left.as_nanos() > 0 => {
                        self.remaining = Some(left);
                        Some(ceiling)
                    },
                    _ => {
                        self.remaining = None;
                        proof {
                            use_type_invariant(rest);
                        }
                        Some(rest)
                    },
                }
            },
        }
    }
}

/// Starts a wait of `delay`, to be taken segment by segment.
pub fn sleep(delay: Duration) -> (wait: Sleep)
    ensures
        wait@ == Some(delay@),
{
    Sleep { remaining: Some(delay) }
}

} // verus!
