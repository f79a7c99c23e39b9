//! Watching a stream of consecutive numbers for gaps.

use vstd::prelude::*;

verus! {

/// How long, in milliseconds, a reader waits for another item before it stops.
pub const IDLE_LIMIT_MS: u128 = 1000;

/// What a reader has seen of the stream so far.
#[derive(Clone, Copy, Debug, PartialEq, Eq, Structural)]
pub struct SequenceCheck {
    pub last_item: u128,
    pub num_items: usize,
}

impl SequenceCheck {
    /// Nothing was seen yet.
    pub fn new() -> (r: Self)
        ensures
            r == (SequenceCheck { last_item: 0, num_items: 0 }),
    {
        SequenceCheck { last_item: 0, num_items: 0 }
    }

    /// Whether a reader that has received nothing for so long stops.
    pub fn is_idle(elapsed_ms: u128) -> (r: bool)
        ensures
            r == (elapsed_ms > IDLE_LIMIT_MS),
            r == (elapsed_ms > 1000),
    {
        elapsed_ms > IDLE_LIMIT_MS
    }

    /// Takes the next item. It has to follow the last one, unless the last one was
    /// zero or there was none; one that does not is refused.
    pub fn accept(&mut self, item: u128) -> (r: bool)
        requires
            old(self).last_item < u128::MAX,
            old(self).num_items < usize::MAX,
        ensures
            r == (old(self).last_item == 0 || item == old(self).last_item + 1),
            r ==> *final(self) == (SequenceCheck {
                last_item: item,
                num_items: (old(self).num_items + 1) as usize,
            }),
            !r ==> *final(self) == *old(self),
    {
        if self.last_item + 1 != item && self.last_item != 0 {
            return false;
        }
        self.last_item = item;
        self.num_items = self.num_items + 1;
        true
    }
}

} // verus!
