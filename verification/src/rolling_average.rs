//! A moving average over a window of fixed size.
//!
//! The filter keeps the most recent values as bit patterns and decides what
//! leaves the window, what the running sum gains and loses, and when an
//! average may be reported. The arithmetic on the values themselves is done
//! by whoever holds the running sum.

use vstd::prelude::*;

verus! {

/// The number of values that the window holds when it is full.
pub const WINDOW_SIZE: usize = 10;

/// The average reported while the window is not yet full: the pattern of
/// positive zero.
pub const COLD_START_AVERAGE: u32 = 0;

/// What the running sum gains and loses when a value enters the window.
#[derive(Debug, Clone, Copy, PartialEq, Eq, Structural)]
pub struct SumStep {
    /// The value that left the window, to be subtracted first.
    pub evicted: Option<u32>,
    /// The value that entered the window, to be added.
    pub added: u32,
}

/// The window after `value` has entered it: a full window loses its oldest
/// value first.
pub open spec fn slide(window: Seq<u32>, value: u32) -> Seq<u32> {
    if window.len() < WINDOW_SIZE {
        window.push(value)
    } else {
        window.drop_first().push(value)
    }
}

/// The value that leaves `window` when another one enters it.
pub open spec fn leaving(window: Seq<u32>) -> Option<u32> {
    if window.len() < WINDOW_SIZE {
        None
    } else {
        Some(window[0])
    }
}

/// The average that a filter with the window `window` reports, where `mean`
/// is the running sum divided by the size of the window.
pub open spec fn reported(window: Seq<u32>, mean: u32) -> u32 {
    if window.len() == WINDOW_SIZE {
        mean
    } else {
        COLD_START_AVERAGE
    }
}

/// A rolling average filter over the last `WINDOW_SIZE` values.
#[derive(Debug)]
pub struct RollingAverage {
    buffer: [u32; 10],
    index: usize,
    count: usize,
}

impl View for RollingAverage {
    type V = Seq<u32>;

    /// The values in the window, oldest first.
    closed spec fn view(&self) -> Seq<u32> {
        if self.count < WINDOW_SIZE {
            self.buffer@.take(self.count as int)
        } else {
            self.buffer@.skip(self.index as int) + self.buffer@.take(self.index as int)
        }
    }
}

impl RollingAverage {
    #[verifier::type_invariant]
    spec fn well_formed(&self) -> bool {
        &&& self.index < WINDOW_SIZE
        &&& self.count <= WINDOW_SIZE
        &&& self.count < WINDOW_SIZE ==> self.index == self.count
    }

    /// A filter with an empty window.
    pub fn new() -> (filter: Self)
        ensures
            filter@ == Seq::<u32>::empty(),
    {
        Self { buffer: [0; 10], index: 0, count: 0 }
    }

    /// The number of values in the window.
    pub fn len(&self) -> (n: usize)
        ensures
            n == self@.len(),
            n <= WINDOW_SIZE,
    {
        proof {
            use_type_invariant(self);
        }
        self.count
    }

    /// Whether the window holds `WINDOW_SIZE` values.
    pub fn is_full(&self) -> (full: bool)
        ensures
            full == (self@.len() == WINDOW_SIZE),
    {
        proof {
            use_type_invariant(self);
        }
        self.count == WINDOW_SIZE
    }

    /// Takes `value` into the window and says how the running sum changes:
    /// a full window gives up its oldest value first.
    pub fn add(&mut self, value: u32) -> (step: SumStep)
        ensures
            final(self)@ == slide(old(self)@, value),
            step.evicted == leaving(old(self)@),
            step.added == value,
    {
        proof {
            use_type_invariant(&*self);
        }
        let full = self.count == WINDOW_SIZE;
        let evicted = if full {
            Some(self.buffer[self.index])
        } else {
            None
        };
        let mut buffer = self.buffer;
        buffer[self.index] = value;
        let index = (self.index + 1) % WINDOW_SIZE;
        let count = if full {
            WINDOW_SIZE
        } else {
            self.count + 1
        };
        *self = Self { buffer, index, count };
        assert(self@ =~= slide(old(self)@, value));
        SumStep { evicted, added: value }
    }

    /// The average to report, where `mean` is the running sum divided by the
    /// size of the window: the cold-start average until the window is full,
    /// and `mean` from then on.
    pub fn average(&self, mean: u32) -> (avg: u32)
        ensures
            avg == reported(self@, mean),
    {
        proof {
            use_type_invariant(self);
        }
        if self.count != WINDOW_SIZE {
            COLD_START_AVERAGE
        } else {
            mean
        }
    }
}

/// The window of a new filter after the values of `values` have been added,
/// first to last.
pub open spec fn window_after(values: Seq<u32>) -> Seq<u32>
    decreases values.len(),
{
    if values.len() == 0 {
        Seq::empty()
    } else {
        slide(window_after(values.drop_last()), values.last())
    }
}

/// The last `WINDOW_SIZE` values of `values`, or all of them where there are
/// fewer.
pub open spec fn most_recent(values: Seq<u32>) -> Seq<u32> {
    if values.len() <= WINDOW_SIZE {
        values
    } else {
        values.skip(values.len() - WINDOW_SIZE)
    }
}

/// After any values have been added, the window holds the most recent of
/// them, oldest first, and no more than `WINDOW_SIZE`.
pub proof fn lemma_window_holds_most_recent(values: Seq<u32>)
    ensures
        window_after(values) == most_recent(values),
    decreases values.len(),
{
    if values.len() > 0 {
        lemma_window_holds_most_recent(values.drop_last());
        assert(window_after(values) =~= most_recent(values));
    }
}

/// While fewer than `WINDOW_SIZE` values have been added, the average
/// reported is the cold-start average, whatever the values and whatever mean
/// is handed in.
pub proof fn lemma_cold_start_reports_zero(values: Seq<u32>, mean: u32)
    requires
        values.len() < WINDOW_SIZE,
    ensures
        reported(window_after(values), mean) == COLD_START_AVERAGE,
        COLD_START_AVERAGE == 0,
        leaving(window_after(values)) is None,
{
    lemma_window_holds_most_recent(values);
}

/// Once `WINDOW_SIZE` values or more have been added, the window is made of
/// the last `WINDOW_SIZE` of them, the average reported is the mean handed
/// in, and the next value to leave is the one added `WINDOW_SIZE` values ago.
pub proof fn lemma_full_window_reports_mean(values: Seq<u32>, mean: u32)
    requires
        values.len() >= WINDOW_SIZE,
    ensures
        window_after(values) == values.skip(values.len() - WINDOW_SIZE),
        reported(window_after(values), mean) == mean,
        leaving(window_after(values)) == Some(values[values.len() - WINDOW_SIZE]),
{
    lemma_window_holds_most_recent(values);
    assert(values.skip(0) =~= values);
}

impl Clone for RollingAverage {
    fn clone(&self) -> (copy: Self)
        ensures
            copy@ == self@,
    {
        proof {
            use_type_invariant(self);
        }
        Self { buffer: self.buffer, index: self.index, count: self.count }
    }
}

impl Default for RollingAverage {
    fn default() -> (filter: Self)
        ensures
            filter@ == Seq::<u32>::empty(),
    {
        Self::new()
    }
}

} // verus!
