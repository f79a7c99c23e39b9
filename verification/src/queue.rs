//! The broadcast ring: one writer, any number of independent readers.
//!
//! A slot carries the number of the item that it holds; items are numbered from
//! one on in the order in which they are published. The writer takes the slots
//! in turn. A reader remembers which slot it looks at next and the number of the
//! item it read last, and takes a slot only where its number is larger.

use crate::error::{ShmError, ShmResult};
use crate::numeric::{
    is_power_of_two, lemma_mask_is_mod, lemma_multiples_of_eight, lemma_round_up, round_up,
};
use core::marker::PhantomData;
use vstd::arithmetic::power2::is_pow2;
use vstd::layout::{align_of, size_of};
use vstd::prelude::*;

verus! {

/// The size and the alignment of one ring slot in bytes.
#[derive(Clone, Copy, Debug, PartialEq, Eq, Structural)]
pub struct SlotLayout {
    pub size: usize,
    pub align: usize,
}

/// One place of the ring: the number of the item in it, and the item. A slot
/// that was never published has number zero.
#[derive(Debug)]
pub struct Slot<T> {
    pub seq: usize,
    pub data: Option<T>,
}

/// Where a ring of slots stands: its first address, and one less than the
/// number of its slots.
#[derive(Debug)]
pub struct BroadCastQueue<T> {
    pub buf: usize,
    pub len_mask: usize,
    pub payload: PhantomData<T>,
}

/// The writing end of a ring. `seq` is the number of the item that was published
/// last. `reserved` says whether the place for the next item was handed out.
#[derive(Debug)]
pub struct BroadcastWriteHandle<T> {
    pub queue: BroadCastQueue<T>,
    pub seq: usize,
    pub reserved: bool,
}

/// A reading end of a ring. `cursor` is the slot to look at next, `seq` the
/// number of the last item read.
#[derive(Debug)]
pub struct BroadcastReadHandle<T> {
    pub queue: BroadCastQueue<T>,
    pub cursor: usize,
    pub seq: usize,
}

/// What publishing an item writes: its number into the slot `index`, then
/// `index` as the slot that was published last.
#[derive(Clone, Copy, Debug, PartialEq, Eq, Structural)]
pub struct Publication {
    pub index: usize,
    pub seq: usize,
}

/// The alignment of a slot: a cache line, or more where the payload wants more.
pub open spec fn slot_align<T>() -> int {
    if align_of::<T>() > 64 {
        align_of::<T>() as int
    } else {
        64
    }
}

/// The bytes of a slot: a word for the number and the payload, filled up to the
/// alignment.
pub open spec fn slot_size<T>() -> int {
    round_up((size_of::<usize>() + size_of::<T>()) as int, slot_align::<T>())
}

/// A slot has room for its number and its payload, is a multiple of its
/// alignment, and its alignment is a power of two that suits the payload.
pub proof fn lemma_slot_layout<T>()
    ensures
        slot_align::<T>() >= 64,
        is_pow2(slot_align::<T>()),
        is_pow2(align_of::<T>() as int),
        slot_size::<T>() >= 64,
        slot_size::<T>() % slot_align::<T>() == 0,
        size_of::<usize>() + size_of::<T>() <= slot_size::<T>() < size_of::<usize>() + size_of::<T>()
            + slot_align::<T>(),
{
    broadcast use vstd::layout::group_align_properties, vstd::layout::layout_of_primitives;

    assert(is_pow2(64)) by {
        reveal_with_fuel(is_pow2, 8);
    }
    let align = slot_align::<T>();
    let need = size_of::<usize>() + size_of::<T>();
    lemma_round_up(need as int, align);
    let size = slot_size::<T>();
    if size < align {
        vstd::arithmetic::div_mod::lemma_small_mod(size as nat, align as nat);
    }
}

impl<T> BroadCastQueue<T> {
    /// The number of slots.
    pub open spec fn slot_count(self) -> int {
        self.len_mask + 1
    }

    /// A ring has a power of two of slots.
    pub open spec fn wf(self) -> bool {
        self.len_mask < usize::MAX && is_pow2(self.slot_count())
    }

    /// The slot after `last`. What is no slot, the largest number, is followed
    /// by the first.
    pub open spec fn following_index(self, last: usize) -> int {
        if last == usize::MAX {
            0
        } else {
            (last + 1) % self.slot_count()
        }
    }

    /// The size and the alignment of one slot.
    pub fn slot_layout() -> (r: SlotLayout)
        ensures
            r.size == slot_size::<T>(),
            r.align == slot_align::<T>(),
    {
        vstd::layout::layout_for_type_is_valid::<T>();
        proof {
            lemma_slot_layout::<T>();
            broadcast use vstd::layout::layout_of_primitives;

        }
        let align: usize = if core::mem::align_of::<T>() > 64 {
            core::mem::align_of::<T>()
        } else {
            64
        };
        let need: usize = core::mem::size_of::<usize>() + core::mem::size_of::<T>();
        proof {
            if align > 64 {
                lemma_multiples_of_eight(
                    align_of::<T>() as int,
                    size_of::<T>() as int,
                );
            }
            assert(need + align - 1 <= usize::MAX);
        }
        let size: usize = ((need + (align - 1)) / align) * align;
        SlotLayout { size, align }
    }

    /// Takes `len` bytes from the address `buf` on as a ring. The address has to
    /// be aligned for a slot, and the whole slots that fit have to be a power of
    /// two.
    pub fn from_raw_parts(buf: usize, len: usize) -> (r: ShmResult<Self>)
        ensures
            r is Err && r->Err_0 == ShmError::UnalignedPtr <==> buf as int % slot_align::<T>() != 0,
            r is Err && r->Err_0 == ShmError::LengthNotPowerOfTwo <==> buf as int % slot_align::<T>()
                == 0 && !is_pow2(len as int / slot_size::<T>()),
            r is Ok <==> buf as int % slot_align::<T>() == 0 && is_pow2(
                len as int / slot_size::<T>(),
            ),
            r matches Ok(queue) ==> {
                &&& queue.wf()
                &&& queue.buf == buf
                &&& queue.slot_count() == len as int / slot_size::<T>()
            },
            r is Err ==> r->Err_0 == ShmError::UnalignedPtr || r->Err_0
                == ShmError::LengthNotPowerOfTwo,
    {
        proof {
            lemma_slot_layout::<T>();
        }
        let layout = Self::slot_layout();
        if buf % layout.align != 0 {
            return Err(ShmError::UnalignedPtr);
        }
        let n_slots: usize = len / layout.size;
        proof {
            reveal(is_pow2);
        }
        if n_slots >= 1 && is_power_of_two(n_slots) {
            Ok(BroadCastQueue { buf, len_mask: n_slots - 1, payload: PhantomData })
        } else {
            Err(ShmError::LengthNotPowerOfTwo)
        }
    }

    /// The slot after `last`.
    pub fn next_index(&self, last: usize) -> (r: usize)
        requires
            self.wf(),
        ensures
            r == self.following_index(last),
            r < self.slot_count(),
    {
        let next: usize = last.wrapping_add(1);
        proof {
            lemma_mask_is_mod(next, (self.len_mask + 1) as usize);
            vstd::arithmetic::div_mod::lemma_small_mod(0, self.slot_count() as nat);
        }
        next & self.len_mask
    }
}

/// The number after `seq`. Numbers start over at zero.
pub open spec fn successor(seq: usize) -> usize {
    if seq == usize::MAX {
        0
    } else {
        (seq + 1) as usize
    }
}

impl<T> BroadcastWriteHandle<T> {
    /// The handle writes to a ring.
    pub open spec fn wf(self) -> bool {
        self.queue.wf()
    }

    /// The writer of a ring in which nothing was published yet.
    pub fn new(queue: BroadCastQueue<T>) -> (r: Self)
        ensures
            r == (BroadcastWriteHandle { queue, seq: 0, reserved: false }),
    {
        BroadcastWriteHandle { queue, seq: 0, reserved: false }
    }

    /// The writer of a ring in which another writer has published up to the item
    /// number `seq`. It goes on from there.
    pub fn continuing(queue: BroadCastQueue<T>, seq: usize) -> (r: Self)
        ensures
            r == (BroadcastWriteHandle { queue, seq, reserved: false }),
    {
        BroadcastWriteHandle { queue, seq, reserved: false }
    }

    /// Whether the slot that is about to be written, whose number is `slot_seq`,
    /// holds the item that was published a round ago. Numbers start over behind the
    /// largest, and their difference with them.
    pub open spec fn overwrites(self, slot_seq: usize) -> bool {
        slot_seq > 0 && (self.seq + 1 - slot_seq == self.queue.slot_count() || self.seq + 1
            - slot_seq + usize::MAX + 1 == self.queue.slot_count())
    }

    /// What the place in `slot` holds when it is handed out for the next item. The
    /// item that is about to be overwritten is dropped, once: a place that was
    /// already handed out stays as it is.
    pub open spec fn offered(self, slot: Slot<T>) -> Option<T> {
        if !self.reserved && self.overwrites(slot.seq) {
            None
        } else {
            slot.data
        }
    }

    /// Decides whether the item under the number `slot_seq`, which is about to be
    /// overwritten, has to be dropped first, and notes that its place is handed out.
    pub fn reserve(&mut self, slot_seq: usize) -> (r: bool)
        requires
            old(self).wf(),
        ensures
            r == (!old(self).reserved && old(self).overwrites(slot_seq)),
            *final(self) == (BroadcastWriteHandle { reserved: true, ..*old(self) }),
    {
        let drops: bool = !self.reserved && slot_seq > 0 && self.seq.wrapping_sub(slot_seq)
            == self.queue.len_mask;
        self.reserved = true;
        drops
    }

    /// The place for the next item, in the slot after the one published last. The
    /// item that it held is dropped.
    ///
    /// Until the place is committed, another call gives the same place as it is.
    pub fn get_next_buffer<'a>(
        &mut self,
        last_committed_slot: usize,
        slots: &'a mut Vec<Slot<T>>,
    ) -> (r: &'a mut Option<T>)
        requires
            old(self).wf(),
            old(slots)@.len() == old(self).queue.slot_count(),
        ensures
            *final(self) == (BroadcastWriteHandle { reserved: true, ..*old(self) }),
            ({
                let next = old(self).queue.following_index(last_committed_slot);
                &&& *r == old(self).offered(old(slots)@[next])
                &&& final(slots)@ == old(slots)@.update(
                    next,
                    Slot { seq: old(slots)@[next].seq, data: *final(r) },
                )
            }),
    {
        let next_idx = self.queue.next_index(last_committed_slot);
        // we are about to overwrite an element, call its destructor
        if self.reserve(slots[next_idx].seq) {
            slots[next_idx].data = None;
        }
        &mut slots[next_idx].data
    }

    /// Counts one more published item and says what has to be written for it.
    pub fn publication(&mut self, last_committed_slot: usize) -> (r: Publication)
        requires
            old(self).wf(),
        ensures
            r.index == old(self).queue.following_index(last_committed_slot),
            r.index < old(self).queue.slot_count(),
            r.seq == successor(old(self).seq),
            *final(self) == (BroadcastWriteHandle {
                queue: old(self).queue,
                seq: r.seq,
                reserved: false,
            }),
    {
        let index = self.queue.next_index(last_committed_slot);
        self.seq = self.seq.wrapping_add(1);
        self.reserved = false;
        Publication { index, seq: self.seq }
    }

    /// Publishes the item that was written into the next slot.
    pub fn commit_next_slot(&mut self, last_committed_slot: &mut usize, slots: &mut Vec<Slot<T>>)
        requires
            old(self).wf(),
            old(slots)@.len() == old(self).queue.slot_count(),
            old(slots)@[old(self).queue.following_index(*old(last_committed_slot))].data is Some,
        ensures
            ({
                let next = old(self).queue.following_index(*old(last_committed_slot));
                let seq = successor(old(self).seq);
                &&& *final(self) == (BroadcastWriteHandle {
                    queue: old(self).queue,
                    seq,
                    reserved: false,
                })
                &&& *final(last_committed_slot) == next
                &&& final(slots)@ == old(slots)@.update(
                    next,
                    Slot { seq, data: old(slots)@[next].data },
                )
            }),
    {
        let publication = self.publication(*last_committed_slot);
        slots[publication.index].seq = publication.seq;
        *last_committed_slot = publication.index;
    }
}

impl<T> BroadcastReadHandle<T> {
    /// The handle reads from a ring and looks at one of its slots.
    pub open spec fn wf(self) -> bool {
        self.queue.wf() && self.cursor < self.queue.slot_count()
    }

    /// What is news at the cursor is an item. This fails only of a reader that was
    /// overtaken and looks at the very slot that the writer is about to fill.
    pub open spec fn finds_item(self, slots: Seq<Slot<T>>) -> bool {
        slots[self.cursor as int].seq > self.seq ==> slots[self.cursor as int].data is Some
    }

    /// The reader after it has read the item number `slot_seq` at its cursor.
    pub open spec fn after_reading(self, slot_seq: usize) -> Self {
        BroadcastReadHandle {
            queue: self.queue,
            cursor: self.queue.following_index(self.cursor) as usize,
            seq: slot_seq,
        }
    }

    /// Where a reader starts that finds the mark `last` and the number `last_seq` in
    /// the marked slot: at that slot, whose item is the newest. Where nothing was
    /// published in it yet, or where the mark is no slot, it starts at the slot that
    /// is written next.
    pub open spec fn start(queue: BroadCastQueue<T>, last: usize, last_seq: usize) -> int {
        if last == usize::MAX || last_seq == 0 {
            queue.following_index(last)
        } else {
            last as int
        }
    }

    /// A reader that joins the ring. `last_seq` is the number in the slot that is
    /// marked as published last, or zero where the mark is no slot.
    pub fn new(queue: BroadCastQueue<T>, last_committed_slot: usize, last_seq: usize) -> (r: Self)
        requires
            queue.wf(),
        ensures
            r == (BroadcastReadHandle {
                queue,
                cursor: Self::start(queue, last_committed_slot, last_seq) as usize,
                seq: 0,
            }),
    {
        let cursor = if last_committed_slot == usize::MAX || last_seq == 0 {
            queue.next_index(last_committed_slot)
        } else {
            last_committed_slot
        };
        BroadcastReadHandle { queue, cursor, seq: 0 }
    }

    /// Whether the cursor is at one of the ring's slots.
    pub fn is_in_ring(&self) -> (r: bool)
        requires
            self.queue.wf(),
        ensures
            r == self.wf(),
    {
        self.cursor <= self.queue.len_mask
    }

    /// Given the number of the item at the cursor, decides whether it is news to
    /// this reader, and if so moves on.
    pub fn observe(&mut self, slot_seq: usize) -> (r: bool)
        requires
            old(self).wf(),
        ensures
            final(self).wf(),
            r == (slot_seq > old(self).seq),
            r ==> *final(self) == old(self).after_reading(slot_seq),
            !r ==> *final(self) == *old(self),
    {
        if slot_seq > self.seq {
            self.seq = slot_seq;
            self.cursor = self.queue.next_index(self.cursor);
            true
        } else {
            false
        }
    }

    /// The item at the cursor, where it is news to this reader. The reader then
    /// moves on to the next slot.
    pub fn try_read<'a>(&mut self, slots: &'a Vec<Slot<T>>) -> (r: Option<&'a T>)
        requires
            old(self).wf(),
            slots@.len() == old(self).queue.slot_count(),
            old(self).finds_item(slots@),
        ensures
            final(self).wf(),
            ({
                let slot = slots@[old(self).cursor as int];
                if slot.seq > old(self).seq {
                    &&& r == Some(&slot.data->0)
                    &&& *final(self) == old(self).after_reading(slot.seq)
                } else {
                    &&& r is None
                    &&& *final(self) == *old(self)
                }
            }),
    {
        let slot = &slots[self.cursor];
        if self.observe(slot.seq) {
            slot.data.as_ref()
        } else {
            None
        }
    }
}

/// A slot starts at a cache line of its own, or at what its payload wants where that is
/// more, and takes the fewest whole ones that its number and its payload fit into.
pub proof fn law_slot_takes_whole_lines<T>(lines: int)
    requires
        size_of::<usize>() + size_of::<T>() <= lines * slot_align::<T>(),
    ensures
        align_of::<T>() <= 64 ==> slot_align::<T>() == 64,
        align_of::<T>() > 64 ==> slot_align::<T>() == align_of::<T>(),
        slot_size::<T>() >= size_of::<usize>() + size_of::<T>(),
        slot_size::<T>() <= lines * slot_align::<T>(),
        slot_size::<T>() % slot_align::<T>() == 0,
{
    lemma_slot_layout::<T>();
    let (align, size) = (slot_align::<T>(), slot_size::<T>());
    vstd::arithmetic::div_mod::lemma_fundamental_div_mod(size, align);
    let taken = size / align;
    assert(size <= lines * align) by (nonlinear_arith)
        requires
            size == align * taken,
            size < lines * align + align,
            align > 0,
    ;
}

} // verus!
