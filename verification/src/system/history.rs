//! The recent readings a dashboard chart shows.

use vstd::prelude::*;

verus! {

/// How many readings a chart shows.
pub const HISTORY_CAPACITY: usize = 24;

/// The last `HISTORY_CAPACITY` readings, oldest first. It starts filled
/// with a resting value, and each new reading pushes out the oldest.
pub struct UsageHistory<T> {
    values: Vec<T>,
}

impl<T> View for UsageHistory<T> {
    type V = Seq<T>;

    closed spec fn view(&self) -> Seq<T> {
        self.values@
    }
}

impl<T> UsageHistory<T> {
    #[verifier::type_invariant]
    spec fn full(self) -> bool {
        self.values@.len() == HISTORY_CAPACITY
    }
}

impl<T: Copy> UsageHistory<T> {
    /// `HISTORY_CAPACITY` copies of the resting value.
    pub fn new(fill: T) -> (r: Self)
        ensures
            r@ == Seq::new(HISTORY_CAPACITY as nat, |i: int| fill),
    {
        let mut values: Vec<T> = Vec::new();
        let mut i: usize = 0;
        while i < HISTORY_CAPACITY
            invariant
                i <= HISTORY_CAPACITY,
                values@ == Seq::new(i as nat, |k: int| fill),
            decreases HISTORY_CAPACITY - i,
        {
            values.push(fill);
            proof {
                assert(values@ =~= Seq::new(i as nat + 1, |k: int| fill));
            }
            i += 1;
        }
        UsageHistory { values }
    }

    /// Adds a reading: the oldest one leaves, the new one comes last.
    pub fn record(&mut self, value: T)
        ensures
            final(self)@ == old(self)@.drop_first().push(value),
            final(self)@.len() == HISTORY_CAPACITY,
    {
        proof {
            use_type_invariant(&*self);
        }
        let mut next: Vec<T> = Vec::new();
        let mut i: usize = 1;
        while i < self.values.len()
            invariant
                1 <= i <= self.values@.len(),
                self.values@.len() == HISTORY_CAPACITY,
                next@ == self.values@.subrange(1, i as int),
            decreases self.values.len() - i,
        {
            next.push(self.values[i]);
            proof {
                assert(next@ =~= self.values@.subrange(1, i as int + 1));
            }
            i += 1;
        }
        next.push(value);
        proof {
            assert(next@ =~= self.values@.drop_first().push(value));
        }
        self.values = next;
    }

    /// The readings, oldest first.
    pub fn values(&self) -> (r: Vec<T>)
        ensures
            r@ == self@,
            r@.len() == HISTORY_CAPACITY,
    {
        proof {
            use_type_invariant(self);
        }
        let mut out: Vec<T> = Vec::new();
        let mut i: usize = 0;
        while i < self.values.len()
            invariant
                i <= self.values@.len(),
                out@ == self.values@.take(i as int),
            decreases self.values.len() - i,
        {
            out.push(self.values[i]);
            proof {
                assert(out@ =~= self.values@.take(i as int + 1));
            }
            i += 1;
        }
        proof {
            assert(self.values@.take(i as int) =~= self.values@);
        }
        out
    }
}

/// The window after recording `vs` one after another, starting from `h`.
pub open spec fn after_records<T>(h: Seq<T>, vs: Seq<T>) -> Seq<T>
    decreases vs.len(),
{
    if vs.len() == 0 {
        h
    } else {
        after_records(h, vs.drop_last()).drop_first().push(vs.last())
    }
}

/// Recording readings one after another keeps the last `HISTORY_CAPACITY`
/// of all readings, the earlier window's followed by the new ones, oldest
/// first.
pub proof fn lemma_history_window<T>(h: Seq<T>, vs: Seq<T>)
    requires
        h.len() == HISTORY_CAPACITY,
    ensures
        after_records(h, vs) == (h + vs).skip(vs.len() as int),
        after_records(h, vs).len() == HISTORY_CAPACITY,
    decreases vs.len(),
{
    if vs.len() == 0 {
        assert((h + vs).skip(0) =~= h);
    } else {
        let n = vs.len() as int;
        lemma_history_window(h, vs.drop_last());
        assert((h + vs.drop_last()).skip(n - 1).drop_first().push(vs.last()) =~= (h + vs).skip(n));
    }
}

} // verus!
