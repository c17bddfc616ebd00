//! Fill records and the bounded fill output queue.

use vstd::prelude::*;

verus! {

/// The immutable record of one applied execution and its realized profit.
///
/// `pnl` is exact: with integer prices and sizes the realized profit of a
/// sign-crossing trade is always an integer in the same scaled units.
#[derive(Debug)]
pub struct Fill {
    pub order_id: String,
    pub price: i64,
    pub size: i64,
    pub pnl: i128,
}

/// Capacity of the fill output queue.
pub const FILL_QUEUE_CAPACITY: usize = 10000;

/// Bounded queue holding fills for the downstream reporting consumer.
///
/// Overflow policy, chosen deliberately so that it is testable: when the
/// queue already holds `FILL_QUEUE_CAPACITY` fills, a new fill is dropped
/// and counted, rather than blocking the producer. The drop counter
/// saturates at `u64::MAX`.
pub struct FillQueue {
    items: Vec<Fill>,
    dropped: u64,
}

impl FillQueue {
    /// The queued fills, oldest first.
    pub closed spec fn spec_items(&self) -> Seq<Fill> {
        self.items@
    }

    /// How many fills the overflow policy has discarded.
    pub closed spec fn spec_dropped(&self) -> int {
        self.dropped as int
    }

    pub fn new() -> (q: FillQueue)
        ensures
            q.spec_items() == Seq::<Fill>::empty(),
            q.spec_dropped() == 0,
    {
        FillQueue { items: Vec::new(), dropped: 0 }
    }

    /// Number of fills currently queued.
    pub fn len(&self) -> (n: usize)
        ensures
            n == self.spec_items().len(),
    {
        self.items.len()
    }

    /// Number of fills discarded by the overflow policy so far.
    pub fn dropped_count(&self) -> (n: u64)
        ensures
            n as int == self.spec_dropped(),
    {
        self.dropped
    }

    /// Enqueues one fill; a fill offered to a full queue is dropped and
    /// counted.
    pub fn push(&mut self, fill: Fill)
        ensures
            old(self).spec_items().len() < FILL_QUEUE_CAPACITY ==> (final(self).spec_items()
                == old(self).spec_items().push(fill) && final(self).spec_dropped() == old(
                self,
            ).spec_dropped()),
            old(self).spec_items().len() >= FILL_QUEUE_CAPACITY ==> (final(self).spec_items()
                == old(self).spec_items() && final(self).spec_dropped() == (if old(
                self,
            ).spec_dropped() == u64::MAX as int {
                old(self).spec_dropped()
            } else {
                old(self).spec_dropped() + 1
            })),
    {
        if self.items.len() < FILL_QUEUE_CAPACITY {
            self.items.push(fill);
        } else {
            self.dropped = self.dropped.saturating_add(1);
        }
    }

    /// Takes every queued fill, leaving the queue empty; the drop counter
    /// is kept.
    pub fn drain(&mut self) -> (fills: Vec<Fill>)
        ensures
            fills@ == old(self).spec_items(),
            final(self).spec_items() == Seq::<Fill>::empty(),
            final(self).spec_dropped() == old(self).spec_dropped(),
    {
        let mut taken: Vec<Fill> = Vec::new();
        core::mem::swap(&mut taken, &mut self.items);
        taken
    }
}

} // verus!
