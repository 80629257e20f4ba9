//! The bounded FIFO window of relative price deviations.

use vstd::prelude::*;
use crate::{DEV_LIMIT, WINDOW_SIZE};

verus! {

/// A rolling window of at most `WINDOW_SIZE` scaled deviations.  Once the
/// window is at capacity, each append evicts exactly the oldest entry.
pub struct DeviationWindow {
    entries: Vec<i64>,
}

impl View for DeviationWindow {
    type V = Seq<int>;

    closed spec fn view(&self) -> Seq<int> {
        self.entries@.map_values(|x: i64| x as int)
    }
}

impl DeviationWindow {
    /// Every entry is a clamped deviation and the window never exceeds its
    /// capacity.
    pub open spec fn wf(&self) -> bool {
        &&& self@.len() <= WINDOW_SIZE
        &&& forall|i: int|
            0 <= i < self@.len() ==> -(DEV_LIMIT as int) <= #[trigger] self@[i] <= DEV_LIMIT as int
    }

    /// The contents after appending `d`: a plain push below capacity, and a
    /// shift of the oldest entry out once at capacity.
    pub open spec fn appended(w: Seq<int>, d: int) -> Seq<int> {
        if w.len() < WINDOW_SIZE {
            w.push(d)
        } else {
            w.subrange(1, w.len() as int).push(d)
        }
    }

    /// Appending never grows the window beyond its capacity, the new entry
    /// becomes the newest, and the surviving entries keep their
    /// chronological order: below capacity all of them, at capacity all but
    /// exactly the oldest.
    pub proof fn lemma_append_fifo(w: Seq<int>, d: int)
        requires
            w.len() <= WINDOW_SIZE,
        ensures
            Self::appended(w, d).len() <= WINDOW_SIZE,
            Self::appended(w, d).last() == d,
            w.len() < WINDOW_SIZE ==> Self::appended(w, d).len() == w.len() + 1
                && (forall|k: int| 0 <= k < w.len() ==> #[trigger] Self::appended(w, d)[k] == w[k]),
            w.len() == WINDOW_SIZE ==> Self::appended(w, d).len() == w.len()
                && (forall|k: int|
                    0 <= k < w.len() - 1 ==> #[trigger] Self::appended(w, d)[k] == w[k + 1]),
    {
    }

    pub fn new() -> (w: Self)
        ensures
            w.wf(),
            w@ == Seq::<int>::empty(),
    {
        let w = DeviationWindow { entries: Vec::new() };
        proof {
            assert(w@ =~= Seq::<int>::empty());
        }
        w
    }

    pub fn len(&self) -> (n: usize)
        ensures
            n == self@.len(),
    {
        self.entries.len()
    }

    pub fn get(&self, i: usize) -> (x: i64)
        requires
            i < self@.len(),
        ensures
            x as int == self@[i as int],
    {
        self.entries[i]
    }

    /// Appends one deviation, evicting the oldest entry first when the
    /// window is already at capacity, so that the length never exceeds
    /// `WINDOW_SIZE` and the chronological order of the rest is preserved.
    pub fn append(&mut self, d: i64)
        requires
            old(self).wf(),
            -DEV_LIMIT <= d <= DEV_LIMIT,
        ensures
            final(self).wf(),
            final(self)@ == Self::appended(old(self)@, d as int),
            final(self)@.len() == if old(self)@.len() < WINDOW_SIZE {
                old(self)@.len() + 1
            } else {
                WINDOW_SIZE as nat
            },
    {
        let ghost before = self@;
        if self.entries.len() == WINDOW_SIZE {
            self.entries.remove(0);
            proof {
                assert(self@ =~= before.subrange(1, before.len() as int));
            }
        }
        let ghost mid = self@;
        self.entries.push(d);
        proof {
            assert(self@ =~= mid.push(d as int));
            assert(self@ =~= Self::appended(before, d as int));
        }
    }
}

} // verus!
