//! A whole queue object as plain values: its fixed head, its consumer records
//! and its slots.

use crate::heartbeats::{
    ConsumerHeartbeat, ConsumerHeartbeatsMeta, Heartbeats, ItemHeartbeat, ProducerHeartbeat,
};
use crate::layout::{ShmHeader, ShmQueue};
use crate::queue::Slot;
use vstd::prelude::*;

verus! {

/// A queue object that is mapped at the address `base`.
#[derive(Debug)]
pub struct ShmRegion<T> {
    pub base: usize,
    pub queue: ShmQueue,
    pub consumers: Vec<ConsumerHeartbeat>,
    pub slots: Vec<Slot<T>>,
}

/// The contents of a queue object.
#[verifier::ext_equal]
pub struct RegionView<T> {
    pub base: usize,
    pub queue: ShmQueue,
    pub consumers: Seq<ConsumerHeartbeat>,
    pub slots: Seq<Slot<T>>,
}

impl<T> View for ShmRegion<T> {
    type V = RegionView<T>;

    open spec fn view(&self) -> RegionView<T> {
        RegionView {
            base: self.base,
            queue: self.queue,
            consumers: self.consumers@,
            slots: self.slots@,
        }
    }
}

/// A consumer record of zero bytes.
pub open spec fn zero_consumer() -> ConsumerHeartbeat {
    ConsumerHeartbeat { heartbeat: ItemHeartbeat { pid: 0, last_update_us: 0 }, sequence: 0 }
}

/// A fixed head of zero bytes.
pub open spec fn zero_queue() -> ShmQueue {
    ShmQueue {
        header: ShmHeader {
            magic: 0,
            version: 0,
            n_slots: 0,
            queue_offset: 0,
            last_committed_slot: 0,
            state: 0,
        },
        heartbeats: Heartbeats {
            producer: ProducerHeartbeat { heartbeat: ItemHeartbeat { pid: 0, last_update_us: 0 } },
            consumers: ConsumerHeartbeatsMeta {
                prev_consumer: 0,
                buffer_offset: 0,
                max_consumers: 0,
            },
        },
    }
}

/// An object of zero bytes with the given numbers of records and slots.
pub open spec fn zero_region<T>(base: usize, consumers: nat, slots: nat) -> RegionView<T> {
    RegionView {
        base,
        queue: zero_queue(),
        consumers: Seq::new(consumers, |i: int| zero_consumer()),
        slots: Seq::new(slots, |i: int| Slot { seq: 0, data: None }),
    }
}

impl<T> RegionView<T> {
    /// There is a record for every consumer.
    pub open spec fn wf(self) -> bool {
        self.queue.heartbeats.consumers.max_consumers <= self.consumers.len()
    }

    /// The number in the slot that is marked as published last, or zero where the
    /// mark is no slot.
    pub open spec fn last_seq(self) -> usize {
        let last = self.queue.header.last_committed_slot;
        if last < self.slots.len() {
            self.slots[last as int].seq
        } else {
            0
        }
    }
}

impl<T> ShmRegion<T> {
    /// Fresh memory at `base` with room for the given numbers of consumer
    /// records and slots, all bytes zero.
    pub fn zeroed(base: usize, max_consumers: usize, num_slots: usize) -> (r: Self)
        ensures
            r@ == zero_region::<T>(base, max_consumers as nat, num_slots as nat),
            r@.wf(),
    {
        let mut consumers: Vec<ConsumerHeartbeat> = Vec::new();
        let mut i: usize = 0;
        while i < max_consumers
            invariant
                i <= max_consumers,
                consumers@ == Seq::new(i as nat, |i: int| zero_consumer()),
            decreases max_consumers - i,
        {
            consumers.push(ConsumerHeartbeat { heartbeat: ItemHeartbeat::new(0), sequence: 0 });
            i = i + 1;
        }
        let mut slots: Vec<Slot<T>> = Vec::new();
        let mut j: usize = 0;
        while j < num_slots
            invariant
                j <= num_slots,
                slots@ == Seq::new(j as nat, |i: int| Slot::<T> { seq: 0, data: None }),
            decreases num_slots - j,
        {
            slots.push(Slot { seq: 0, data: None });
            j = j + 1;
        }
        ShmRegion {
            base,
            queue: ShmQueue {
                header: ShmHeader {
                    magic: 0,
                    version: 0,
                    n_slots: 0,
                    queue_offset: 0,
                    last_committed_slot: 0,
                    state: 0,
                },
                heartbeats: Heartbeats {
                    producer: ProducerHeartbeat { heartbeat: ItemHeartbeat::new(0) },
                    consumers: ConsumerHeartbeatsMeta {
                        prev_consumer: 0,
                        buffer_offset: 0,
                        max_consumers: 0,
                    },
                },
            },
            consumers,
            slots,
        }
    }

    /// The number in the slot that is marked as published last, or zero where the
    /// mark is no slot.
    pub fn marked_seq(&self) -> (r: usize)
        ensures
            r == self@.last_seq(),
    {
        let last = self.queue.header.last_committed_slot;
        if last < self.slots.len() {
            self.slots[last].seq
        } else {
            0
        }
    }

    /// Sets every byte of the object to zero.
    pub fn clear(&mut self)
        ensures
            final(self)@ == zero_region::<T>(
                old(self)@.base,
                old(self)@.consumers.len(),
                old(self)@.slots.len(),
            ),
            final(self)@.wf(),
    {
        *self = Self::zeroed(self.base, self.consumers.len(), self.slots.len());
    }
}

/// An object of zero bytes is blank: its head is all zero, nobody has claimed a record, and
/// nothing is published in any slot.
pub proof fn law_zeroed_object_is_blank<T>(base: usize, consumers: nat, slots: nat)
    ensures
        ({
            let region = zero_region::<T>(base, consumers, slots);
            let header = region.queue.header;
            let heartbeats = region.queue.heartbeats;
            &&& region.base == base
            &&& region.consumers.len() == consumers
            &&& region.slots.len() == slots
            &&& header.magic == 0 && header.version == 0 && header.n_slots == 0
            &&& header.queue_offset == 0 && header.last_committed_slot == 0 && header.state == 0
            &&& heartbeats.producer.heartbeat.pid == 0
            &&& heartbeats.producer.heartbeat.last_update_us == 0
            &&& heartbeats.consumers.prev_consumer == 0
            &&& heartbeats.consumers.buffer_offset == 0
            &&& heartbeats.consumers.max_consumers == 0
            &&& forall|i: int|
                0 <= i < slots ==> (#[trigger] region.slots[i]).seq == 0 && region.slots[i].data
                    is None
            &&& forall|i: int|
                0 <= i < consumers ==> {
                    let record = #[trigger] region.consumers[i];
                    &&& record.heartbeat.last_update_us == 0
                    &&& record.heartbeat.pid == 0
                    &&& record.sequence == 0
                }
        }),
{
}

/// The number in the marked slot is what the slot says, wherever it lies in the ring.
pub proof fn law_marked_number_is_that_of_the_slot<T>(region: RegionView<T>)
    ensures
        ({
            let mark = region.queue.header.last_committed_slot as int;
            &&& mark < region.slots.len() ==> region.last_seq() == region.slots[mark].seq
            &&& mark >= region.slots.len() ==> region.last_seq() == 0
        }),
{
}

} // verus!
