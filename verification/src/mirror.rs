//! The single-writer, single-reader cell holding the latest reference
//! price.
//!
//! The feed-ingestion side overwrites the value on every inbound tick and
//! the decision loop snapshots it on every venue tick; `get` always
//! returns exactly the most recently written value.  Cross-task mutual
//! exclusion around the cell is the caller's concern; the cell itself has
//! no history and no staleness beyond last-write-wins.

use vstd::prelude::*;
use crate::PX_MAX;

verus! {

/// Holds the most recent price from the external reference feed.  A value
/// of zero is the sentinel meaning "no price received yet".
pub struct ReferencePriceMirror {
    price: i64,
}

impl View for ReferencePriceMirror {
    type V = int;

    closed spec fn view(&self) -> int {
        self.price as int
    }
}

impl ReferencePriceMirror {
    pub open spec fn wf(&self) -> bool {
        0 <= self@ <= PX_MAX as int
    }

    /// Starts in the "unknown" state.
    pub fn new() -> (m: Self)
        ensures
            m.wf(),
            m@ == 0,
    {
        ReferencePriceMirror { price: 0 }
    }

    /// Overwrites the mirror with the newest reference price; the previous
    /// value is discarded, so a subsequent `get` can never observe an
    /// older write.
    pub fn set(&mut self, price: i64)
        requires
            0 <= price <= PX_MAX,
        ensures
            final(self).wf(),
            final(self)@ == price as int,
    {
        self.price = price;
    }

    /// Returns exactly the most recently written value (or the zero
    /// sentinel before any write).
    pub fn get(&self) -> (price: i64)
        ensures
            price as int == self@,
    {
        self.price
    }
}

} // verus!
