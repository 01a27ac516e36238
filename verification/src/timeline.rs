//! The two timers of the ramp and the instants at which they fire.
//!
//! Time is counted in whole seconds from startup. Each timer fires at
//! every positive multiple of its period, so the ticks that fall into a span
//! of time are known in advance.

use vstd::arithmetic::div_mod::{
    lemma_div_pos_is_pos, lemma_fundamental_div_mod, lemma_mod_bound, lemma_mod_multiples_basic,
};
use vstd::arithmetic::mul::{
    lemma_mul_is_commutative, lemma_mul_is_distributive_add, lemma_mul_left_inequality,
    lemma_mul_nonnegative,
};
use vstd::prelude::*;

verus! {

/// Seconds between two ticks of the writer timer.
pub const WRITER_INTERVAL_SECS: u64 = 120;

/// Seconds between two ticks of the reader timer.
pub const READER_INTERVAL_SECS: u64 = 30;

/// The two timers that grow the fleet.
#[derive(Debug, Clone, Copy, PartialEq, Eq, Structural)]
pub enum Tick {
    Writer,
    Reader,
}

impl Tick {
    /// The period of the timer, in seconds.
    pub open spec fn period(self) -> nat {
        match self {
            Tick::Writer => WRITER_INTERVAL_SECS as nat,
            Tick::Reader => READER_INTERVAL_SECS as nat,
        }
    }

    /// The timer fires at `second`: at every positive multiple of its
    /// period, and so not at startup itself.
    pub open spec fn fires_at(self, second: nat) -> bool {
        second > 0 && second % self.period() == 0
    }

    /// The period of the timer, in seconds.
    pub fn interval_secs(self) -> (secs: u64)
        ensures
            secs == self.period(),
    {
        match self {
            Tick::Writer => WRITER_INTERVAL_SECS,
            Tick::Reader => READER_INTERVAL_SECS,
        }
    }
}

/// One of the timers fires at `second`.
pub open spec fn is_tick_instant(second: nat) -> bool {
    Tick::Writer.fires_at(second) || Tick::Reader.fires_at(second)
}

/// The ticks that fire at `second`. Where both timers fire at once, the
/// writer's tick comes first.
pub open spec fn ticks_at(second: nat) -> Seq<Tick> {
    let writer = if Tick::Writer.fires_at(second) {
        seq![Tick::Writer]
    } else {
        Seq::<Tick>::empty()
    };
    let reader = if Tick::Reader.fires_at(second) {
        seq![Tick::Reader]
    } else {
        Seq::<Tick>::empty()
    };
    writer + reader
}

/// The ticks that fire later than `from` and no later than `to`, in the
/// order in which they fire.
pub open spec fn ticks_between(from: nat, to: nat) -> Seq<Tick>
    decreases to,
{
    if to <= from {
        Seq::<Tick>::empty()
    } else {
        ticks_between(from, (to - 1) as nat) + ticks_at(to)
    }
}

/// Number of ticks of the writer timer among `ticks`.
pub open spec fn writer_ticks(ticks: Seq<Tick>) -> nat
    decreases ticks.len(),
{
    if ticks.len() == 0 {
        0
    } else {
        writer_ticks(ticks.drop_last()) + if ticks.last() is Writer {
            1nat
        } else {
            0nat
        }
    }
}

/// Number of ticks of the reader timer among `ticks`.
pub open spec fn reader_ticks(ticks: Seq<Tick>) -> nat
    decreases ticks.len(),
{
    if ticks.len() == 0 {
        0
    } else {
        reader_ticks(ticks.drop_last()) + if ticks.last() is Reader {
            1nat
        } else {
            0nat
        }
    }
}

/// Counting ticks goes through concatenation.
pub proof fn lemma_tick_counts_concat(first: Seq<Tick>, second: Seq<Tick>)
    ensures
        writer_ticks(first + second) == writer_ticks(first) + writer_ticks(second),
        reader_ticks(first + second) == reader_ticks(first) + reader_ticks(second),
    decreases second.len(),
{
    if second.len() == 0 {
        assert(first + second =~= first);
    } else {
        lemma_tick_counts_concat(first, second.drop_last());
        assert((first + second).drop_last() =~= first + second.drop_last());
    }
}

/// A span of time can be cut in two at any instant within it.
pub proof fn lemma_ticks_between_split(from: nat, middle: nat, to: nat)
    requires
        from <= middle <= to,
    ensures
        ticks_between(from, to) == ticks_between(from, middle) + ticks_between(middle, to),
    decreases to,
{
    if middle < to {
        lemma_ticks_between_split(from, middle, (to - 1) as nat);
    }
}

/// No tick falls into a span in which no timer fires.
pub proof fn lemma_ticks_between_quiet(from: nat, to: nat)
    requires
        forall|second: nat| from < second <= to ==> !is_tick_instant(second),
    ensures
        ticks_between(from, to) == Seq::<Tick>::empty(),
    decreases to,
{
    if to > from {
        lemma_ticks_between_quiet(from, (to - 1) as nat);
        assert(!is_tick_instant(to));
    }
}

/// Up to the first instant at which a timer fires, the ticks of a span are
/// those of that instant.
pub proof fn lemma_ticks_between_first(from: nat, next: nat)
    requires
        from < next,
        forall|second: nat| from < second < next ==> !is_tick_instant(second),
    ensures
        ticks_between(from, next) == ticks_at(next),
{
    lemma_ticks_between_quiet(from, (next - 1) as nat);
}

/// Each timer has fired once for every whole period that has passed: the
/// number of its ticks in a span is the number of multiples of its period
/// that the span holds.
pub proof fn lemma_ticks_between_counts(from: nat, to: nat)
    requires
        from <= to,
    ensures
        writer_ticks(ticks_between(from, to)) == to / (WRITER_INTERVAL_SECS as nat) - from / (
        WRITER_INTERVAL_SECS as nat),
        reader_ticks(ticks_between(from, to)) == to / (READER_INTERVAL_SECS as nat) - from / (
        READER_INTERVAL_SECS as nat),
    decreases to,
{
    if to > from {
        lemma_ticks_between_counts(from, (to - 1) as nat);
        lemma_tick_counts_concat(ticks_between(from, (to - 1) as nat), ticks_at(to));
        reveal_with_fuel(writer_ticks, 3);
        reveal_with_fuel(reader_ticks, 3);
    }
}

/// Of the multiples of `period`, `after - after % period + period` is the
/// first that is greater than `after`.
proof fn lemma_next_multiple(after: int, period: int, second: int)
    requires
        0 <= after,
        0 < period,
    ensures
        0 <= after % period <= after,
        after < after - after % period + period,
        (after - after % period + period) % period == 0,
        after < second && second % period == 0 ==> after - after % period + period <= second,
{
    let below = after / period;
    lemma_fundamental_div_mod(after, period);
    lemma_mod_bound(after, period);
    lemma_div_pos_is_pos(after, period);
    lemma_mul_nonnegative(period, below);
    lemma_mul_is_distributive_add(period, below, 1);
    assert(after - after % period + period == period * (below + 1));
    lemma_mod_multiples_basic(below + 1, period);
    lemma_mul_is_commutative(below + 1, period);
    if after < second && second % period == 0 {
        let count = second / period;
        lemma_fundamental_div_mod(second, period);
        if count <= below {
            lemma_mul_left_inequality(period, count, below);
        }
        lemma_mul_left_inequality(period, below + 1, count);
    }
}

/// The first multiple of `period` after `after`, unless it is too large
/// for the clock.
fn next_multiple(after: u64, period: u64) -> (multiple: Option<u64>)
    requires
        period > 0,
    ensures
        multiple == if after - after % period + period <= u64::MAX {
            Some((after - after % period + period) as u64)
        } else {
            None
        },
{
    proof {
        lemma_next_multiple(after as int, period as int, 0);
    }
    (after - after % period).checked_add(period)
}

/// The first instant after `after` at which a timer fires, or `None` where
/// the clock ends before any does.
pub fn next_instant(after: u64) -> (instant: Option<u64>)
    ensures
        match instant {
            Some(next) => {
                &&& after < next
                &&& is_tick_instant(next as nat)
                &&& forall|second: nat| after < second < next ==> !is_tick_instant(second)
            },
            None => forall|second: nat| after < second <= u64::MAX ==> !is_tick_instant(second),
        },
{
    let writer = next_multiple(after, WRITER_INTERVAL_SECS);
    let reader = next_multiple(after, READER_INTERVAL_SECS);
    proof {
        assert forall|second: nat| after < second implies (Tick::Writer.fires_at(second) ==> after
            - after % WRITER_INTERVAL_SECS + WRITER_INTERVAL_SECS <= second) && (
        Tick::Reader.fires_at(second) ==> after - after % READER_INTERVAL_SECS
            + READER_INTERVAL_SECS <= second) by {
            lemma_next_multiple(after as int, WRITER_INTERVAL_SECS as int, second as int);
            lemma_next_multiple(after as int, READER_INTERVAL_SECS as int, second as int);
        }
        lemma_next_multiple(after as int, WRITER_INTERVAL_SECS as int, 0);
        lemma_next_multiple(after as int, READER_INTERVAL_SECS as int, 0);
    }
    match (writer, reader) {
        (Some(w), Some(r)) => Some(if w <= r {
            w
        } else {
            r
        }),
        (Some(w), None) => Some(w),
        (None, Some(r)) => Some(r),
        (None, None) => None,
    }
}

} // verus!
