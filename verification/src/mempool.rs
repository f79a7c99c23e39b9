//! A pool of equally sized slots that are handed out and taken back.
//!
//! The free slots form a list through their `next` fields. The list's head is
//! one word that holds the index of the first free slot and a tag which every
//! change of the list moves on, so that a head which was read before a change
//! cannot be mistaken for the present one.

use crate::numeric::{lemma_round_up, round_up};
use vstd::layout::{align_of, size_of};
use vstd::prelude::*;

verus! {

/// How many bits of a packed word the index takes.
pub const INDEX_BITS: usize = usize::BITS as usize / 2;

/// The largest index that fits, and one more than the most slots that a pool may
/// have.
pub const INDEX_MASK: usize = !0usize >> INDEX_BITS;

/// How many values a tag, and an index, can take.
pub open spec fn half() -> int {
    if usize::BITS == 64 {
        0x1_0000_0000
    } else {
        0x1_0000
    }
}

proof fn lemma_constants()
    ensures
        usize::BITS == 64 ==> INDEX_BITS == 32 && INDEX_MASK == 0xffff_ffff,
        usize::BITS == 32 ==> INDEX_BITS == 16 && INDEX_MASK == 0xffff,
        INDEX_MASK == half() - 1,
        half() * half() == usize::MAX + 1,
{
    if usize::BITS == 64 {
        assert(!0usize >> 32usize == 0xffff_ffffu64) by (bit_vector)
            requires
                usize::BITS == 64,
        ;
    } else {
        assert(!0usize >> 16usize == 0xffff) by (bit_vector)
            requires
                usize::BITS == 32,
        ;
    }
}

/// One word that holds `index` below and the low half of `tag` above.
pub open spec fn packed(tag: usize, index: usize) -> usize {
    (tag << INDEX_BITS) | index
}

/// What a packed word is as a number.
pub proof fn lemma_packed(tag: usize, index: usize)
    requires
        index < half(),
    ensures
        packed(tag, index) == (tag as int % half()) * half() + index,
{
    lemma_constants();
    if usize::BITS == 64 {
        assert((tag << 32usize) | index == (tag as u64 % 0x1_0000_0000u64) * 0x1_0000_0000u64
            + index) by (bit_vector)
            requires
                usize::BITS == 64,
                index < 0x1_0000_0000u64,
        ;
    } else {
        assert((tag << 16usize) | index == (tag % 0x1_0000usize) * 0x1_0000usize + index)
            by (bit_vector)
            requires
                usize::BITS == 32,
                index < 0x1_0000,
        ;
    }
}

/// Packs a tag and an index into one word.
pub fn pack(tag: usize, index: usize) -> (r: usize)
    ensures
        r == packed(tag, index),
        index < half() ==> r == (tag as int % half()) * half() + index,
{
    proof {
        lemma_constants();
        if index < half() {
            lemma_packed(tag, index);
        }
    }
    tag << INDEX_BITS | index
}

/// The tag and the index that a word holds.
pub fn unpack(packed: usize) -> (r: (usize, usize))
    ensures
        r.0 == packed as int / half(),
        r.1 == packed as int % half(),
        r.0 < half(),
        r.1 < half(),
{
    proof {
        lemma_constants();
        if usize::BITS == 64 {
            assert(packed >> 32usize == packed as u64 / 0x1_0000_0000u64) by (bit_vector)
                requires
                    usize::BITS == 64,
            ;
            assert(packed & 0xffff_ffff == packed as u64 % 0x1_0000_0000u64) by (bit_vector)
                requires
                    usize::BITS == 64,
            ;
        } else {
            assert(packed >> 16usize == packed / 0x1_0000) by (bit_vector)
                requires
                    usize::BITS == 32,
            ;
            assert(packed & 0xffff == packed % 0x1_0000) by (bit_vector)
                requires
                    usize::BITS == 32,
            ;
        }
    }
    (packed >> INDEX_BITS, packed & INDEX_MASK)
}

/// What packing and unpacking undo of each other: an index and the low half of
/// the tag come back, and so does a packed word.
pub proof fn law_pack_round_trip(tag: int, index: int, packed: int)
    requires
        0 <= tag,
        0 <= index < half(),
    ensures
        ((tag % half()) * half() + index) / half() == tag % half(),
        ((tag % half()) * half() + index) % half() == index,
        (packed / half()) * half() + packed % half() == packed,
{
    vstd::arithmetic::div_mod::lemma_fundamental_div_mod_converse(
        (tag % half()) * half() + index,
        half(),
        tag % half(),
        index,
    );
    vstd::arithmetic::div_mod::lemma_fundamental_div_mod(packed, half());
    vstd::arithmetic::mul::lemma_mul_is_commutative(packed / half(), half());
}

/// Why a slot could not be handed out.
#[derive(Clone, Copy, Debug, PartialEq, Eq, Structural)]
pub enum TryAllocFailReason {
    /// Every slot is taken.
    BufferFull,
    /// Another allocation or release came in between.
    CASFailed,
}

/// One place of the pool. `ref_cnt` counts the handles beyond the first, `next`
/// is the slot after this one in the list of free slots.
#[derive(Debug)]
pub struct Slot<T> {
    pub ref_cnt: usize,
    pub elem: Option<T>,
    pub next: usize,
}

/// A pool of slots.
pub struct MemPool<T> {
    buf: Vec<Slot<T>>,
    cap: usize,
    head: usize,
    free: Ghost<Seq<int>>,
}

/// A slot that was handed out, by its index. The largest number stands for none.
#[derive(Debug)]
pub struct SlotHandle<T> {
    pub idx: usize,
    pub payload: core::marker::PhantomData<T>,
}

/// What a pool holds: the free slots in the order in which they are handed out, the
/// tag of the list's head, and of each slot the value and the number of handles
/// beyond the first.
#[verifier::ext_equal]
pub struct PoolView<T> {
    pub free: Seq<int>,
    pub tag: int,
    pub elems: Seq<Option<T>>,
    pub counts: Seq<usize>,
}

/// The bytes of a slot in a raw buffer: two words and the element.
pub open spec fn slot_bytes_spec<T>() -> int {
    let align = if align_of::<T>() > size_of::<usize>() {
        align_of::<T>() as int
    } else {
        size_of::<usize>() as int
    };
    round_up((2 * size_of::<usize>() + size_of::<T>()) as int, align)
}

/// The index of the free slot number `i`, or the number of slots behind the last.
pub open spec fn free_link(free: Seq<int>, i: int, cap: int) -> int {
    if i < free.len() {
        free[i]
    } else {
        cap
    }
}

impl<T> PoolView<T> {
    /// How many slots there are.
    pub open spec fn capacity(self) -> int {
        self.elems.len() as int
    }

    /// Whether the slot `idx` is handed out.
    pub open spec fn is_taken(self, idx: int) -> bool {
        0 <= idx < self.capacity() && !self.free.contains(idx)
    }

    /// No slot is free twice, and a free slot has no value and no further handles.
    pub open spec fn wf(self) -> bool {
        &&& self.counts.len() == self.elems.len()
        &&& self.capacity() < half()
        &&& 0 <= self.tag < half()
        &&& self.free.no_duplicates()
        &&& forall|i: int|
            0 <= i < self.free.len() ==> {
                &&& 0 <= #[trigger] self.free[i] < self.capacity()
                &&& self.elems[self.free[i]] is None
                &&& self.counts[self.free[i]] == 0
            }
    }

    /// A pool of `size` slots, all of them free.
    pub open spec fn fresh(size: nat) -> Self {
        PoolView {
            free: Seq::new(size, |i: int| i),
            tag: 0,
            elems: Seq::new(size, |i: int| None),
            counts: Seq::new(size, |i: int| 0usize),
        }
    }

    /// The pool after its first free slot was handed out.
    pub open spec fn allocated(self) -> Self {
        PoolView { free: self.free.skip(1), tag: (self.tag + 1) % half(), ..self }
    }

    /// The pool after `value` was put into the slot `idx`.
    pub open spec fn initialised(self, idx: int, value: T) -> Self {
        PoolView { elems: self.elems.update(idx, Some(value)), ..self }
    }

    /// The pool after one more handle to the slot `idx` was made.
    pub open spec fn cloned(self, idx: int) -> Self {
        PoolView {
            counts: self.counts.update(idx, crate::queue::successor(self.counts[idx])),
            ..self
        }
    }

    /// The pool after a handle to the slot `idx` was given up. The last one takes
    /// the value with it, and the slot is then the first free one.
    pub open spec fn dropped(self, idx: int) -> Self {
        if self.counts[idx] == 0 {
            PoolView {
                free: seq![idx] + self.free,
                tag: (self.tag + 1) % half(),
                elems: self.elems.update(idx, None),
                ..self
            }
        } else {
            PoolView { counts: self.counts.update(idx, (self.counts[idx] - 1) as usize), ..self }
        }
    }

    /// The pool after `handle` was overwritten: what it held is given up.
    pub open spec fn without(self, handle: SlotHandle<T>) -> Self {
        if handle.is_empty() {
            self
        } else {
            self.dropped(handle.idx as int)
        }
    }
}

impl<T> View for MemPool<T> {
    type V = PoolView<T>;

    closed spec fn view(&self) -> PoolView<T> {
        PoolView {
            free: self.free@,
            tag: self.head as int / half(),
            elems: self.buf@.map_values(|slot: Slot<T>| slot.elem),
            counts: self.buf@.map_values(|slot: Slot<T>| slot.ref_cnt),
        }
    }
}

impl<T> MemPool<T> {
    /// The packed head of the list of free slots.
    spec fn packed_head(self) -> usize {
        self.head
    }

    /// The free slots are linked from the head on.
    pub closed spec fn is_linked(self) -> bool {
        let free = self.free@;
        let cap = self.cap as int;
        &&& self.buf@.len() == cap
        &&& self.head as int % half() == free_link(free, 0, cap)
        &&& forall|i: int|
            0 <= i < free.len() ==> self.buf@[#[trigger] free[i]].next == free_link(
                free,
                i + 1,
                cap,
            )
    }

    /// What the pool holds is in order, and so is the list of its free slots.
    pub open spec fn wf(self) -> bool {
        self@.wf() && self.is_linked()
    }

    fn build(size: usize) -> (r: Self)
        ensures
            r@ == PoolView::<T>::fresh(size as nat),
            size < half() ==> r.wf(),
    {
        let mut buf: Vec<Slot<T>> = Vec::new();
        let mut i: usize = 0;
        while i < size
            invariant
                i <= size,
                buf@.len() == i,
                forall|j: int|
                    0 <= j < i ==> (#[trigger] buf@[j]) == (Slot::<T> {
                        ref_cnt: 0,
                        elem: None,
                        next: (j + 1) as usize,
                    }),
            decreases size - i,
        {
            buf.push(Slot { ref_cnt: 0, elem: None, next: i + 1 });
            i = i + 1;
        }
        let pool = MemPool {
            buf,
            cap: size,
            head: pack(0, 0),
            free: Ghost(Seq::new(size as nat, |i: int| i)),
        };
        proof {
            vstd::arithmetic::div_mod::lemma_small_mod(0, half() as nat);
            vstd::arithmetic::mul::lemma_mul_basics(half());
            vstd::arithmetic::div_mod::lemma_div_basics(half());
            assert(pool@ =~= PoolView::<T>::fresh(size as nat));
        }
        pool
    }

    /// Creates a pool with space for at most `size` concurrently allocated slots.
    pub fn new(size: usize) -> (r: Self)
        requires
            size < half() - 1,
        ensures
            r.wf(),
            r@ == PoolView::<T>::fresh(size as nat),
    {
        Self::build(size)
    }

    /// Creates a pool in a buffer of `len` bytes. It has as many slots as `len`
    /// goes into the size of one; `None` where that is none.
    pub fn from_raw_buffer(len: usize) -> (r: Option<Self>)
        requires
            len > 0,
        ensures
            ({
                let num_slots = slot_bytes_spec::<T>() / len as int;
                if num_slots < 1 {
                    r is None
                } else {
                    &&& r is Some
                    &&& r->0@ == PoolView::<T>::fresh(num_slots as nat)
                    &&& num_slots < half() ==> r->0.wf()
                }
            }),
    {
        let num_slots: usize = slot_bytes::<T>() / len;
        if num_slots < 1 {
            None
        } else {
            Some(Self::build(num_slots))
        }
    }

    /// Hands out the slot at `head`, which is a head of the list that was read
    /// before, in place of what `handle` holds. Where the list has changed since,
    /// nothing happens and the answer is `false`.
    fn try_alloc_unchecked_with_head_into_buf(
        &mut self,
        head: usize,
        handle: &mut SlotHandle<T>,
    ) -> (r: bool)
        requires
            old(self).wf(),
            head as int % half() < old(self)@.capacity(),
            old(handle).fits(old(self)@),
        ensures
            final(self).wf(),
            r == (head == old(self).packed_head()),
            r ==> {
                &&& old(self)@.free.len() > 0
                &&& final(handle).idx == old(self)@.free[0]
                &&& final(self)@ == old(self)@.allocated().without(*old(handle))
            },
            !r ==> *final(self) == *old(self) && *final(handle) == *old(handle),
    {
        let (tag, index) = unpack(head);
        let next_head = self.buf[index].next;
        if self.head != head {
            return false;
        }
        let ghost before = *self;
        proof {
            law_allocated_slot_is_unused(before@);
            law_pack_round_trip(tag + 1, next_head as int, head as int);
        }
        self.head = pack(tag + 1, next_head);
        self.free = Ghost(self.free@.skip(1));
        proof {
            assert(self@ =~= before@.allocated());
            let free = self.free@;
            assert forall|i: int| 0 <= i < free.len() implies self.buf@[#[trigger] free[i]].next
                == free_link(free, i + 1, self.cap as int) by {
                assert(free[i] == before.free@[i + 1]);
            }
        }
        let held: usize = handle.idx;
        *handle = SlotHandle { idx: index, payload: core::marker::PhantomData };
        if held != usize::MAX {
            self.release(held);
        }
        true
    }

    /// Tries once to allocate a slot: `None` where `handle` now holds one,
    /// otherwise the reason why not. What `handle` held is given up.
    pub fn try_alloc(&mut self, handle: &mut SlotHandle<T>) -> (r: Option<TryAllocFailReason>)
        requires
            old(self).wf(),
            old(handle).fits(old(self)@),
        ensures
            final(self).wf(),
            if old(self)@.free.len() == 0 {
                &&& r == Some(TryAllocFailReason::BufferFull)
                &&& *final(self) == *old(self)
                &&& *final(handle) == *old(handle)
            } else {
                &&& r is None
                &&& final(handle).idx == old(self)@.free[0]
                &&& final(self)@ == old(self)@.allocated().without(*old(handle))
            },
    {
        let head = self.head;
        if unpack(head).1 >= self.cap {
            return Some(TryAllocFailReason::BufferFull);
        }
        if self.try_alloc_unchecked_with_head_into_buf(head, handle) {
            None
        } else {
            Some(TryAllocFailReason::CASFailed)
        }
    }

    /// Allocates one slot from the pool. What `handle` held is given up.
    ///
    /// The slot starts out uninitialized. Call `SlotHandle::init` before
    /// `SlotHandle::get`. Returns `false` if the pool is exhausted.
    pub fn allocate(&mut self, handle: &mut SlotHandle<T>) -> (r: bool)
        requires
            old(self).wf(),
            old(handle).fits(old(self)@),
        ensures
            final(self).wf(),
            r == (old(self)@.free.len() > 0),
            r ==> {
                &&& final(handle).idx == old(self)@.free[0]
                &&& final(self)@ == old(self)@.allocated().without(*old(handle))
            },
            !r ==> *final(self) == *old(self) && *final(handle) == *old(handle),
    {
        loop
            invariant
                self.wf(),
                handle.fits(self@),
                *self == *old(self),
                *handle == *old(handle),
            decreases 0int,
        {
            match self.try_alloc(handle) {
                None => {
                    return true;
                },
                Some(reason) => match reason {
                    TryAllocFailReason::BufferFull => {
                        return false;
                    },
                    TryAllocFailReason::CASFailed => {
                        continue ;
                    },
                },
            }
        }
    }

    /// Tries once to allocate a slot from a pool that has one.
    pub fn try_alloc_unchecked(&mut self, handle: &mut SlotHandle<T>) -> (r: bool)
        requires
            old(self).wf(),
            old(self)@.free.len() > 0,
            old(handle).fits(old(self)@),
        ensures
            r,
            final(self).wf(),
            final(handle).idx == old(self)@.free[0],
            final(self)@ == old(self)@.allocated().without(*old(handle)),
    {
        let head = self.head;
        self.try_alloc_unchecked_with_head_into_buf(head, handle)
    }

    /// Allocates one slot without checking whether the pool is exhausted. The
    /// pool must still contain at least one free slot.
    pub fn alloc_unchecked(&mut self, handle: &mut SlotHandle<T>)
        requires
            old(self).wf(),
            old(self)@.free.len() > 0,
            old(handle).fits(old(self)@),
        ensures
            final(self).wf(),
            final(handle).idx == old(self)@.free[0],
            final(self)@ == old(self)@.allocated().without(*old(handle)),
    {
        loop
            invariant
                self.wf(),
                *self == *old(self),
                *handle == *old(handle),
                handle.fits(self@),
                self@.free.len() > 0,
            decreases 0int,
        {
            if self.try_alloc_unchecked(handle) {
                return ;
            }
        }
    }

    /// Puts the slot in front of the list, given a head of the list that was read
    /// before. Where the list has changed since, it stays as it is and the answer
    /// is `false`.
    fn try_free_with_head(&mut self, head: usize, slot_idx: usize) -> (r: bool)
        requires
            old(self).wf(),
            old(self)@.is_taken(slot_idx as int),
            old(self)@.counts[slot_idx as int] == 0,
            old(self)@.elems[slot_idx as int] is None,
        ensures
            final(self).wf(),
            r == (head == old(self).packed_head()),
            r ==> final(self)@ == old(self)@.dropped(slot_idx as int),
            !r ==> final(self)@ == old(self)@ && final(self).packed_head() == old(
                self,
            ).packed_head(),
    {
        let (tag, index) = unpack(head);
        let ghost before = *self;
        self.buf[slot_idx].next = index;
        assert(self@ =~= before@);
        assert(forall|i: int| 0 <= i < self.free@.len() ==> #[trigger] self.free@[i] != slot_idx);
        if self.head != head {
            return false;
        }
        proof {
            law_pack_round_trip(tag + 1, slot_idx as int, head as int);
            law_dropping_keeps_pool_in_order(before@, slot_idx as int);
        }
        self.head = pack(tag + 1, slot_idx);
        self.free = Ghost(seq![slot_idx as int] + self.free@);
        proof {
            assert(self@ =~= before@.dropped(slot_idx as int));
            let free = self.free@;
            assert forall|i: int| 0 <= i < free.len() implies self.buf@[#[trigger] free[i]].next
                == free_link(free, i + 1, self.cap as int) by {
                if i > 0 {
                    assert(free[i] == before.free@[i - 1]);
                }
            }
        }
        true
    }

    fn try_free_unchecked(&mut self, slot_idx: usize) -> (r: bool)
        requires
            old(self).wf(),
            old(self)@.is_taken(slot_idx as int),
            old(self)@.counts[slot_idx as int] == 0,
            old(self)@.elems[slot_idx as int] is None,
        ensures
            r,
            final(self).wf(),
            final(self)@ == old(self)@.dropped(slot_idx as int),
    {
        let head = self.head;
        self.try_free_with_head(head, slot_idx)
    }

    /// Returns a slot to the list of free slots.
    fn free_unchecked(&mut self, slot_idx: usize)
        requires
            old(self).wf(),
            old(self)@.is_taken(slot_idx as int),
            old(self)@.counts[slot_idx as int] == 0,
            old(self)@.elems[slot_idx as int] is None,
        ensures
            final(self).wf(),
            final(self)@ == old(self)@.dropped(slot_idx as int),
    {
        loop
            invariant
                *self == *old(self),
                self.wf(),
                self@.is_taken(slot_idx as int),
                self@.counts[slot_idx as int] == 0,
                self@.elems[slot_idx as int] is None,
            decreases 0int,
        {
            if self.try_free_unchecked(slot_idx) {
                return ;
            }
        }
    }

    /// Gives up one handle to a slot. With the last one the value is dropped and the
    /// slot goes back to the free ones.
    fn release(&mut self, idx: usize)
        requires
            old(self).wf(),
            old(self)@.is_taken(idx as int),
        ensures
            final(self).wf(),
            final(self)@ == old(self)@.dropped(idx as int),
    {
        let ghost before = *self;
        assert(forall|i: int| 0 <= i < self.free@.len() ==> #[trigger] self.free@[i] != idx);
        let count: usize = self.buf[idx].ref_cnt;
        if count == 0 {
            self.buf[idx].elem = None;
            assert(self@ =~= (PoolView {
                elems: before@.elems.update(idx as int, None),
                ..before@
            }));
            self.free_unchecked(idx);
            assert(self@ =~= before@.dropped(idx as int));
        } else {
            self.buf[idx].ref_cnt = count - 1;
            assert(self@ =~= before@.dropped(idx as int));
        }
    }
}

impl<T> SlotHandle<T> {
    /// Whether the handle holds no slot.
    pub open spec fn is_empty(self) -> bool {
        self.idx == usize::MAX
    }

    /// Whether the handle holds no slot or one that the pool has handed out.
    pub open spec fn fits(self, pool: PoolView<T>) -> bool {
        self.is_empty() || pool.is_taken(self.idx as int)
    }

    /// A handle that holds no slot yet, to be filled by `MemPool::allocate`.
    pub fn empty() -> (r: Self)
        ensures
            r.is_empty(),
    {
        SlotHandle { idx: usize::MAX, payload: core::marker::PhantomData }
    }

    /// Initializes the value stored in this slot.
    pub fn init(&mut self, pool: &mut MemPool<T>, value: T)
        requires
            old(pool).wf(),
            old(pool)@.is_taken(old(self).idx as int),
        ensures
            *final(self) == *old(self),
            final(pool).wf(),
            final(pool)@ == old(pool)@.initialised(old(self).idx as int, value),
    {
        let ghost before = *pool;
        pool.buf[self.idx].elem = Some(value);
        assert(forall|i: int| 0 <= i < pool.free@.len() ==> #[trigger] pool.free@[i] != self.idx);
        assert(pool@ =~= before@.initialised(self.idx as int, value));
    }

    /// Returns an immutable reference to the initialized value. The slot must have
    /// been initialized with `SlotHandle::init`.
    pub fn get<'a>(&self, pool: &'a MemPool<T>) -> (r: &'a T)
        requires
            pool.wf(),
            pool@.is_taken(self.idx as int),
            pool@.elems[self.idx as int] is Some,
        ensures
            *r == pool@.elems[self.idx as int]->0,
    {
        pool.buf[self.idx].elem.as_ref().unwrap()
    }

    /// Another handle to the same slot.
    pub fn clone(&self, pool: &mut MemPool<T>) -> (r: Self)
        requires
            old(pool).wf(),
            old(pool)@.is_taken(self.idx as int),
        ensures
            r.idx == self.idx,
            final(pool).wf(),
            final(pool)@ == old(pool)@.cloned(self.idx as int),
    {
        let ghost before = *pool;
        let count: usize = pool.buf[self.idx].ref_cnt.wrapping_add(1);
        pool.buf[self.idx].ref_cnt = count;
        assert(forall|i: int| 0 <= i < pool.free@.len() ==> #[trigger] pool.free@[i] != self.idx);
        assert(pool@ =~= before@.cloned(self.idx as int));
        SlotHandle { idx: self.idx, payload: core::marker::PhantomData }
    }

    /// Gives the handle up. With the last handle to a slot its value is dropped, and
    /// the slot goes back to the free ones.
    pub fn drop(self, pool: &mut MemPool<T>)
        requires
            old(pool).wf(),
            old(pool)@.is_taken(self.idx as int),
        ensures
            final(pool).wf(),
            final(pool)@ == old(pool)@.dropped(self.idx as int),
    {
        pool.release(self.idx);
    }
}

/// The slot that is handed out was free before and is not free after, so no two
/// handles that were handed out hold the same slot, and there is one free slot less.
pub proof fn law_allocated_slot_is_unused<T>(pool: PoolView<T>)
    requires
        pool.wf(),
        pool.free.len() > 0,
    ensures
        ({
            let idx = pool.free[0];
            let after = pool.allocated();
            &&& after.wf()
            &&& !pool.is_taken(idx)
            &&& after.is_taken(idx)
            &&& after.free.len() == pool.free.len() - 1
            &&& forall|other: int| #[trigger]
                pool.is_taken(other) ==> after.is_taken(other) && other != idx
        }),
{
    let idx = pool.free[0];
    let after = pool.allocated();
    vstd::arithmetic::div_mod::lemma_mod_bound(pool.tag + 1, half());
    assert(pool.free.contains(pool.free[0]));
    assert(forall|i: int| 0 <= i < after.free.len() ==> after.free[i] == pool.free[i + 1]);
    if after.free.contains(idx) {
        let i = choose|i: int| 0 <= i < after.free.len() && after.free[i] == idx;
        assert(pool.free[i + 1] == pool.free[0]);
    }
    assert forall|other: int| #[trigger] pool.is_taken(other) implies after.is_taken(other) && other
        != idx by {
        if after.free.contains(other) {
            let i = choose|i: int| 0 <= i < after.free.len() && after.free[i] == other;
            assert(pool.free[i + 1] == other);
        }
    }
}

/// Giving up a handle keeps the pool in order. Only the last handle to a slot frees
/// it, and no other slot is touched.
pub proof fn law_dropping_keeps_pool_in_order<T>(pool: PoolView<T>, idx: int)
    requires
        pool.wf(),
        pool.is_taken(idx),
    ensures
        ({
            let after = pool.dropped(idx);
            &&& after.wf()
            &&& after.is_taken(idx) <==> pool.counts[idx] > 0
            &&& forall|other: int|
                other != idx ==> (#[trigger] after.is_taken(other) <==> pool.is_taken(other))
            &&& forall|other: int|
                0 <= other < pool.capacity() && other != idx ==> (#[trigger] after.elems[other])
                    == pool.elems[other] && after.counts[other] == pool.counts[other]
        }),
{
    let after = pool.dropped(idx);
    vstd::arithmetic::div_mod::lemma_mod_bound(pool.tag + 1, half());
    assert(forall|i: int|
        0 <= i < pool.free.len() ==> pool.free.contains(#[trigger] pool.free[i]));
    if pool.counts[idx] == 0 {
        assert(after.free[0] == idx);
        assert(forall|i: int| 0 < i < after.free.len() ==> after.free[i] == pool.free[i - 1]);
        assert(forall|i: int| 0 <= i < pool.free.len() ==> after.free[i + 1] == pool.free[i]);
        assert forall|other: int| other != idx implies (#[trigger] after.is_taken(other)
            <==> pool.is_taken(other)) by {
            if after.free.contains(other) {
                let i = choose|i: int| 0 <= i < after.free.len() && after.free[i] == other;
                assert(pool.free[i - 1] == other);
            }
            if pool.free.contains(other) {
                let i = choose|i: int| 0 <= i < pool.free.len() && pool.free[i] == other;
                assert(after.free[i + 1] == other);
            }
        }
    }
}

/// A slot whose last handle was given up is the next to be handed out.
pub proof fn law_freed_slot_is_reused_first<T>(pool: PoolView<T>, idx: int)
    requires
        pool.wf(),
        pool.is_taken(idx),
        pool.counts[idx] == 0,
    ensures
        pool.dropped(idx).free[0] == idx,
        pool.dropped(idx).allocated().free == pool.free,
{
    assert(pool.dropped(idx).allocated().free =~= pool.free);
}

/// A further handle changes nothing but the count, and giving it up undoes that: the
/// slot and its value live as long as a handle does.
pub proof fn law_clone_and_drop_cancel<T>(pool: PoolView<T>, idx: int)
    requires
        pool.wf(),
        pool.is_taken(idx),
        pool.counts[idx] < usize::MAX,
    ensures
        pool.cloned(idx).is_taken(idx),
        pool.cloned(idx).elems == pool.elems,
        pool.cloned(idx).dropped(idx) == pool,
{
    assert(pool.cloned(idx).dropped(idx) =~= pool);
}

/// Allocating into the only handle to a slot frees that slot, so the pool has as
/// much room as before.
pub proof fn law_replaced_handle_is_given_up<T>(pool: PoolView<T>, handle: SlotHandle<T>)
    requires
        pool.wf(),
        pool.free.len() > 0,
        !handle.is_empty(),
        handle.fits(pool),
        pool.counts[handle.idx as int] == 0,
    ensures
        ({
            let after = pool.allocated().without(handle);
            &&& after.wf()
            &&& after.free.len() == pool.free.len()
            &&& after.free[0] == handle.idx
            &&& after.is_taken(pool.free[0])
            &&& !after.is_taken(handle.idx as int)
        }),
{
    law_allocated_slot_is_unused(pool);
    law_dropping_keeps_pool_in_order(pool.allocated(), handle.idx as int);
}

/// The pool after rounds of allocating a slot, putting a value into it and giving
/// the handle up, one for each of the values.
pub open spec fn after_rounds<T>(pool: PoolView<T>, values: Seq<T>) -> PoolView<T>
    decreases values.len(),
{
    if values.len() == 0 {
        pool
    } else {
        let before = after_rounds(pool, values.drop_last());
        let idx = before.free[0];
        before.allocated().initialised(idx, values.last()).dropped(idx)
    }
}

/// However many rounds of allocating, initialising and dropping there were, the pool
/// has the room that it had: the same slots are free in the same order, and nothing
/// but the tag has moved on.
pub proof fn law_rounds_leave_room<T>(pool: PoolView<T>, values: Seq<T>)
    requires
        pool.wf(),
        pool.free.len() > 0,
    ensures
        after_rounds(pool, values) == (PoolView {
            tag: (pool.tag + 2 * values.len()) % half(),
            ..pool
        }),
    decreases values.len(),
{
    if values.len() == 0 {
        vstd::arithmetic::div_mod::lemma_small_mod(pool.tag as nat, half() as nat);
    } else {
        law_rounds_leave_room(pool, values.drop_last());
        let before = after_rounds(pool, values.drop_last());
        let idx = before.free[0];
        let taken = before.allocated().initialised(idx, values.last());
        let after = taken.dropped(idx);
        vstd::arithmetic::div_mod::lemma_mod_bound(pool.tag + 2 * (values.len() - 1), half());
        vstd::arithmetic::div_mod::lemma_add_mod_noop(before.tag + 1, 1, half());
        vstd::arithmetic::div_mod::lemma_add_mod_noop(
            pool.tag + 2 * (values.len() - 1),
            2,
            half(),
        );
        vstd::arithmetic::div_mod::lemma_small_mod(1, half() as nat);
        vstd::arithmetic::div_mod::lemma_small_mod(2, half() as nat);
        vstd::arithmetic::div_mod::lemma_add_mod_noop(before.tag, 2, half());
        vstd::arithmetic::div_mod::lemma_small_mod(before.tag as nat, half() as nat);
        assert(pool.elems[pool.free[0]] is None);
        assert(after.free =~= pool.free);
        assert(after.elems =~= pool.elems);
        assert(after.tag == (before.tag + 2) % half());
    }
}

/// The free slots and the taken ones make up the capacity: a pool with no free
/// slot has every slot out, and one with as many free slots as it has slots has
/// none out.
pub proof fn law_taken_and_free_fill_the_pool<T>(pool: PoolView<T>, idx: int)
    requires
        pool.wf(),
        0 <= idx < pool.capacity(),
    ensures
        pool.free.len() <= pool.capacity(),
        pool.free.len() == 0 ==> pool.is_taken(idx),
        pool.free.len() == pool.capacity() ==> !pool.is_taken(idx),
{
    let free = pool.free;
    let all = vstd::set_lib::set_int_range(0, pool.capacity());
    vstd::set_lib::lemma_int_range(0, pool.capacity());
    free.unique_seq_to_set();
    assert(free.to_set().subset_of(all));
    vstd::set_lib::lemma_len_subset(free.to_set(), all);
    if free.len() == pool.capacity() {
        vstd::set_lib::lemma_subset_equality(free.to_set(), all);
        assert(all.contains(idx));
        assert(free.to_set().contains(idx));
    }
}

/// A head of the list that was read before a change is told apart from the
/// present one: after fewer changes than there are tags, the tag differs.
pub proof fn law_stale_head_is_recognised(tag: int, changes: int)
    requires
        0 <= tag < half(),
        0 < changes < half(),
    ensures
        (tag + changes) % half() != tag,
{
    if tag + changes < half() {
        vstd::arithmetic::div_mod::lemma_small_mod((tag + changes) as nat, half() as nat);
    } else {
        vstd::arithmetic::div_mod::lemma_small_mod((tag + changes - half()) as nat, half() as nat);
        vstd::arithmetic::div_mod::lemma_mod_sub_multiples_vanish(tag + changes, half());
    }
}

/// The bytes of a slot in a raw buffer.
fn slot_bytes<T>() -> (r: usize)
    ensures
        r == slot_bytes_spec::<T>(),
{
    vstd::layout::layout_for_type_is_valid::<T>();
    proof {
        broadcast use vstd::layout::layout_of_primitives;

    }
    let word: usize = core::mem::size_of::<usize>();
    let align: usize = if core::mem::align_of::<T>() > word {
        core::mem::align_of::<T>()
    } else {
        word
    };
    let need: usize = 2 * word + core::mem::size_of::<T>();
    proof {
        lemma_round_up(need as int, align as int);
        broadcast use vstd::layout::align_properties;

        if align > word {
            assert(align >= 8) by {
                reveal_with_fuel(vstd::arithmetic::power2::is_pow2, 4);
            }
            crate::numeric::lemma_multiples_of_eight(
                align_of::<T>() as int,
                size_of::<T>() as int,
            );
            if align > isize::MAX {
                crate::numeric::lemma_round_up_unique(need as int, align as int, align as int);
            }
        }
        assert(slot_bytes_spec::<T>() <= usize::MAX);
    }
    let rest: usize = need % align;
    if rest == 0 {
        proof {
            crate::numeric::lemma_round_up_unique(need as int, align as int, need as int);
        }
        need
    } else {
        proof {
            let up = need - rest + align;
            vstd::arithmetic::div_mod::lemma_fundamental_div_mod(need as int, align as int);
            let q = need as int / align as int;
            assert(up == align * (q + 1)) by (nonlinear_arith)
                requires
                    need == align * q + rest,
                    up == need - rest + align,
            ;
            vstd::arithmetic::mul::lemma_mul_is_commutative(align as int, q + 1);
            vstd::arithmetic::div_mod::lemma_mod_multiples_basic(q + 1, align as int);
            crate::numeric::lemma_round_up_unique(need as int, align as int, up);
        }
        (need - rest) + align
    }
}

/// A new pool has all its slots free, to be handed out from the first to the last, and
/// no slot has a value or a handle.
pub proof fn law_new_pool_is_all_free<T>(size: nat)
    ensures
        ({
            let pool = PoolView::<T>::fresh(size);
            &&& pool.capacity() == size
            &&& pool.free.len() == size
            &&& pool.counts.len() == size
            &&& pool.tag == 0
            &&& forall|i: int| 0 <= i < size ==> #[trigger] pool.free[i] == i
            &&& forall|i: int| 0 <= i < size ==> #[trigger] pool.elems[i] is None
            &&& forall|i: int| 0 <= i < size ==> #[trigger] pool.counts[i] == 0
        }),
{
}

/// The tag after a change of the list: one more, and zero again behind the largest.
pub open spec fn tag_after(tag: int) -> int {
    if tag + 1 == half() {
        0
    } else {
        tag + 1
    }
}

proof fn lemma_tag_after(tag: int)
    requires
        0 <= tag < half(),
    ensures
        (tag + 1) % half() == tag_after(tag),
{
    if tag + 1 == half() {
        vstd::arithmetic::div_mod::lemma_mod_self_0(half());
    } else {
        vstd::arithmetic::div_mod::lemma_small_mod((tag + 1) as nat, half() as nat);
    }
}

/// Handing a slot out takes the first from the free ones and moves the tag on. The other
/// free slots keep their order, and no value and no count changes.
pub proof fn law_allocation_takes_the_first<T>(pool: PoolView<T>)
    requires
        pool.wf(),
        pool.free.len() > 0,
    ensures
        ({
            let after = pool.allocated();
            &&& after.free.len() == pool.free.len() - 1
            &&& forall|i: int| 0 <= i < after.free.len() ==> #[trigger] after.free[i] == pool.free[i + 1]
            &&& after.tag == tag_after(pool.tag)
            &&& after.elems == pool.elems
            &&& after.counts == pool.counts
        }),
{
    lemma_tag_after(pool.tag);
}

/// Putting a value into a slot changes what that slot holds and nothing else.
pub proof fn law_initialising_changes_one_value<T>(pool: PoolView<T>, idx: int, value: T, other: int)
    requires
        pool.wf(),
        0 <= idx < pool.capacity(),
        0 <= other < pool.capacity(),
    ensures
        ({
            let after = pool.initialised(idx, value);
            &&& after.capacity() == pool.capacity()
            &&& after.elems[idx] == Some(value)
            &&& other != idx ==> after.elems[other] == pool.elems[other]
            &&& after.counts == pool.counts
            &&& after.free == pool.free
            &&& after.tag == pool.tag
        }),
{
}

/// A further handle counts one more for its slot and changes nothing else. The count
/// starts over behind the largest number.
pub proof fn law_sharing_changes_one_count<T>(pool: PoolView<T>, idx: int, other: int)
    requires
        pool.wf(),
        0 <= idx < pool.capacity(),
        0 <= other < pool.capacity(),
    ensures
        ({
            let after = pool.cloned(idx);
            &&& after.counts.len() == pool.counts.len()
            &&& after.counts[idx] == if pool.counts[idx] == usize::MAX {
                0
            } else {
                pool.counts[idx] + 1
            }
            &&& other != idx ==> after.counts[other] == pool.counts[other]
            &&& after.elems == pool.elems
            &&& after.free == pool.free
            &&& after.tag == pool.tag
        }),
{
}

/// Giving up a handle counts one less for its slot. Where it was the last, the value goes
/// and the slot is put in front of the free ones, which keep their order, and the tag
/// moves on. Nothing else changes. An empty handle gives up nothing.
pub proof fn law_giving_up_frees_with_the_last_handle<T>(
    pool: PoolView<T>,
    handle: SlotHandle<T>,
)
    requires
        pool.wf(),
        handle.fits(pool),
    ensures
        ({
            let after = pool.without(handle);
            let idx = handle.idx as int;
            &&& handle.idx == usize::MAX ==> after == pool
            &&& handle.idx != usize::MAX ==> {
                &&& after == pool.dropped(idx)
                &&& after.capacity() == pool.capacity()
                &&& after.counts.len() == pool.counts.len()
                &&& forall|other: int|
                    0 <= other < pool.capacity() && other != idx ==> #[trigger] after.elems[other]
                        == pool.elems[other]
                &&& forall|other: int|
                    0 <= other < pool.capacity() && other != idx ==> #[trigger] after.counts[other]
                        == pool.counts[other]
                &&& pool.counts[idx] > 0 ==> {
                    &&& after.counts[idx] == pool.counts[idx] - 1
                    &&& after.elems[idx] == pool.elems[idx]
                    &&& after.free == pool.free
                    &&& after.tag == pool.tag
                }
                &&& pool.counts[idx] == 0 ==> {
                    &&& after.counts[idx] == 0
                    &&& after.elems[idx] is None
                    &&& after.free.len() == pool.free.len() + 1
                    &&& after.free[0] == idx
                    &&& forall|i: int|
                        0 < i < after.free.len() ==> #[trigger] after.free[i] == pool.free[i - 1]
                    &&& after.tag == tag_after(pool.tag)
                }
            }
        }),
{
    lemma_tag_after(pool.tag);
}

/// A slot in a raw buffer has room for two words and the element, and is the smallest
/// such multiple of the larger alignment of the two.
pub proof fn law_raw_slot_is_tight<T>()
    ensures
        ({
            let need = 2 * size_of::<usize>() + size_of::<T>();
            let bytes = slot_bytes_spec::<T>();
            let align: int = if align_of::<T>() > size_of::<usize>() {
                align_of::<T>() as int
            } else {
                size_of::<usize>() as int
            };
            &&& need <= bytes < need + align
            &&& bytes % align == 0
        }),
{
    broadcast use vstd::layout::layout_of_primitives;

    lemma_round_up(
        (2 * size_of::<usize>() + size_of::<T>()) as int,
        if align_of::<T>() > size_of::<usize>() {
            align_of::<T>() as int
        } else {
            size_of::<usize>() as int
        },
    );
}

/// An index and a tag share a word: either takes half of its bits, so that packing one of
/// each loses nothing that is below half.
pub proof fn law_index_and_tag_share_a_word(tag: usize, index: usize)
    requires
        tag < half(),
        index < half(),
    ensures
        half() * half() == usize::MAX + 1,
        packed(tag, index) as int / half() == tag,
        packed(tag, index) as int % half() == index,
{
    lemma_constants();
    lemma_packed(tag, index);
    vstd::arithmetic::div_mod::lemma_small_mod(tag as nat, half() as nat);
    law_pack_round_trip(tag as int, index as int, 0);
}

} // verus!
