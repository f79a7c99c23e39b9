//! Allocating a slot of a pool and giving up a handle to one, one memory access at a
//! time.
//!
//! Any number of threads do so at once, without a lock. Here each operation is a
//! machine: it says which access it wants next, is told what came of it, and
//! decides from that alone how to go on. The laws say what holds however the
//! accesses of the threads are interleaved.

use crate::mempool::{free_link, half, lemma_packed, pack, packed, unpack};
use vstd::arithmetic::div_mod::{
    lemma_add_mod_noop, lemma_fundamental_div_mod_converse, lemma_mod_bound, lemma_small_mod,
};
use vstd::prelude::*;

verus! {

/// An access to the words that the threads share.
#[derive(Clone, Copy, Debug, PartialEq, Eq, Structural)]
pub enum PoolAction {
    /// Read the head of the list of free slots.
    LoadHead,
    /// Read which slot follows a slot in the list.
    LoadNext { index: usize },
    /// Write which slot is to follow a slot in the list.
    StoreNext { index: usize, value: usize },
    /// Set the head to `new` if it still is `current`.
    SwapHead { current: usize, new: usize },
    /// Take one from the count of further handles to a slot, and read what it was.
    TakeCount { index: usize },
    /// Set the count of further handles to zero.
    ClearCount { index: usize },
    /// Drop the value in a slot.
    DropElement { index: usize },
    /// The operation is over, with the slot it was about or without one.
    Finished { slot: Option<usize> },
}

/// What came of an access.
#[derive(Clone, Copy, Debug, PartialEq, Eq, Structural)]
pub enum PoolReply {
    Word(usize),
    Stored,
    Swapped(bool),
}

/// Whether `reply` is an answer to `action`.
pub open spec fn answers_pool(action: PoolAction, reply: PoolReply) -> bool {
    match action {
        PoolAction::LoadHead => reply is Word,
        PoolAction::LoadNext { .. } => reply is Word,
        PoolAction::StoreNext { .. } => reply is Stored,
        PoolAction::SwapHead { .. } => reply is Swapped,
        PoolAction::TakeCount { .. } => reply is Word,
        PoolAction::ClearCount { .. } => reply is Stored,
        PoolAction::DropElement { .. } => reply is Stored,
        PoolAction::Finished { .. } => false,
    }
}

/// The tag of a packed head.
pub open spec fn tag_of(head: usize) -> int {
    head as int / half()
}

/// The index in a packed head.
pub open spec fn index_of(head: usize) -> int {
    head as int % half()
}

/// The head that follows `head` when the list then starts with `first`.
pub open spec fn moved_head(head: usize, first: usize) -> usize {
    packed((tag_of(head) + 1) as usize, first)
}

fn move_head(head: usize, first: usize) -> (r: usize)
    ensures
        r == moved_head(head, first),
{
    pack(unpack(head).0 + 1, first)
}

/// An allocation under way in a pool of `cap` slots; `head` is the head that was
/// read last.
#[derive(Clone, Copy, Debug, PartialEq, Eq, Structural)]
pub struct SlotAllocation {
    pub cap: usize,
    pub head: usize,
    pub action: PoolAction,
}

impl SlotAllocation {
    /// The allocation after its access, given what came of it.
    pub open spec fn next(self, reply: PoolReply) -> Self {
        match (self.action, reply) {
            (PoolAction::LoadHead, PoolReply::Word(head)) => SlotAllocation {
                cap: self.cap,
                head,
                action: if index_of(head) >= self.cap {
                    PoolAction::Finished { slot: None }
                } else {
                    PoolAction::LoadNext { index: index_of(head) as usize }
                },
            },
            (PoolAction::LoadNext { .. }, PoolReply::Word(next)) => SlotAllocation {
                action: PoolAction::SwapHead {
                    current: self.head,
                    new: moved_head(self.head, next),
                },
                ..self
            },
            (PoolAction::SwapHead { .. }, PoolReply::Swapped(won)) => SlotAllocation {
                action: if won {
                    PoolAction::Finished { slot: Some(index_of(self.head) as usize) }
                } else {
                    PoolAction::LoadHead
                },
                ..self
            },
            _ => self,
        }
    }

    /// Starts an allocation.
    pub fn new(cap: usize) -> (r: Self)
        ensures
            r == (SlotAllocation { cap, head: 0, action: PoolAction::LoadHead }),
    {
        SlotAllocation { cap, head: 0, action: PoolAction::LoadHead }
    }

    /// Goes on after the access, given what came of it. An allocation that lost
    /// the head to another thread starts over.
    pub fn resume(&mut self, reply: PoolReply)
        requires
            answers_pool(old(self).action, reply),
        ensures
            *final(self) == old(self).next(reply),
    {
        match (self.action, reply) {
            (PoolAction::LoadHead, PoolReply::Word(head)) => {
                let index: usize = unpack(head).1;
                self.head = head;
                self.action = if index >= self.cap {
                    PoolAction::Finished { slot: None }
                } else {
                    PoolAction::LoadNext { index }
                };
            },
            (PoolAction::LoadNext { .. }, PoolReply::Word(next)) => {
                self.action = PoolAction::SwapHead {
                    current: self.head,
                    new: move_head(self.head, next),
                };
            },
            (PoolAction::SwapHead { .. }, PoolReply::Swapped(won)) => {
                self.action = if won {
                    PoolAction::Finished { slot: Some(unpack(self.head).1) }
                } else {
                    PoolAction::LoadHead
                };
            },
            _ => {},
        }
    }
}

/// The giving up of a handle to the slot `slot` under way; `head` is the head that
/// was read last. It ends with the slot where that was freed.
#[derive(Clone, Copy, Debug, PartialEq, Eq, Structural)]
pub struct SlotRelease {
    pub slot: usize,
    pub head: usize,
    pub action: PoolAction,
}

impl SlotRelease {
    /// The release after its access, given what came of it.
    pub open spec fn next(self, reply: PoolReply) -> Self {
        match (self.action, reply) {
            (PoolAction::TakeCount { .. }, PoolReply::Word(count)) => SlotRelease {
                action: if count == 0 {
                    PoolAction::ClearCount { index: self.slot }
                } else {
                    PoolAction::Finished { slot: None }
                },
                ..self
            },
            (PoolAction::ClearCount { .. }, PoolReply::Stored) => SlotRelease {
                action: PoolAction::DropElement { index: self.slot },
                ..self
            },
            (PoolAction::DropElement { .. }, PoolReply::Stored) => SlotRelease {
                action: PoolAction::LoadHead,
                ..self
            },
            (PoolAction::LoadHead, PoolReply::Word(head)) => SlotRelease {
                slot: self.slot,
                head,
                action: PoolAction::StoreNext {
                    index: self.slot,
                    value: index_of(head) as usize,
                },
            },
            (PoolAction::StoreNext { .. }, PoolReply::Stored) => SlotRelease {
                action: PoolAction::SwapHead {
                    current: self.head,
                    new: moved_head(self.head, self.slot),
                },
                ..self
            },
            (PoolAction::SwapHead { .. }, PoolReply::Swapped(won)) => SlotRelease {
                action: if won {
                    PoolAction::Finished { slot: Some(self.slot) }
                } else {
                    PoolAction::LoadHead
                },
                ..self
            },
            _ => self,
        }
    }

    /// A handle to `slot` that is about to be given up.
    pub open spec fn started(slot: usize) -> Self {
        SlotRelease { slot, head: 0, action: PoolAction::TakeCount { index: slot } }
    }

    /// Starts to give up a handle to a slot.
    pub fn new(slot: usize) -> (r: Self)
        ensures
            r == Self::started(slot),
    {
        SlotRelease { slot, head: 0, action: PoolAction::TakeCount { index: slot } }
    }

    /// Goes on after the access, given what came of it. Only the last handle to a
    /// slot frees it. A release that lost the head to another thread tries again.
    pub fn resume(&mut self, reply: PoolReply)
        requires
            answers_pool(old(self).action, reply),
        ensures
            *final(self) == old(self).next(reply),
    {
        match (self.action, reply) {
            (PoolAction::TakeCount { .. }, PoolReply::Word(count)) => {
                self.action = if count == 0 {
                    PoolAction::ClearCount { index: self.slot }
                } else {
                    PoolAction::Finished { slot: None }
                };
            },
            (PoolAction::ClearCount { .. }, PoolReply::Stored) => {
                self.action = PoolAction::DropElement { index: self.slot };
            },
            (PoolAction::DropElement { .. }, PoolReply::Stored) => {
                self.action = PoolAction::LoadHead;
            },
            (PoolAction::LoadHead, PoolReply::Word(head)) => {
                self.head = head;
                self.action = PoolAction::StoreNext { index: self.slot, value: unpack(head).1 };
            },
            (PoolAction::StoreNext { .. }, PoolReply::Stored) => {
                self.action = PoolAction::SwapHead {
                    current: self.head,
                    new: move_head(self.head, self.slot),
                };
            },
            (PoolAction::SwapHead { .. }, PoolReply::Swapped(won)) => {
                self.action = if won {
                    PoolAction::Finished { slot: Some(self.slot) }
                } else {
                    PoolAction::LoadHead
                };
            },
            _ => {},
        }
    }
}

/// The words that the threads share, with the free slots in the order of the list
/// and the number of changes that the list has seen.
pub struct PoolMemory {
    pub head: usize,
    pub next: Seq<usize>,
    pub counts: Seq<usize>,
    pub free: Seq<int>,
    pub changes: nat,
}

impl PoolMemory {
    /// The free slots are linked from the head on, none twice and none with a further
    /// handle, and the head's tag counts the changes.
    pub open spec fn wf(self) -> bool {
        let cap = self.next.len() as int;
        &&& cap < half()
        &&& self.counts.len() == cap
        &&& self.free.no_duplicates()
        &&& forall|i: int|
            0 <= i < self.free.len() ==> {
                &&& 0 <= #[trigger] self.free[i] < cap
                &&& self.counts[self.free[i]] == 0
            }
        &&& index_of(self.head) == free_link(self.free, 0, cap)
        &&& tag_of(self.head) == self.changes as int % half()
        &&& forall|i: int|
            0 <= i < self.free.len() ==> self.next[#[trigger] self.free[i]] == free_link(
                self.free,
                i + 1,
                cap,
            )
    }

    /// What the memory answers to an access.
    pub open spec fn answer(self, action: PoolAction) -> PoolReply {
        match action {
            PoolAction::LoadHead => PoolReply::Word(self.head),
            PoolAction::LoadNext { index } => PoolReply::Word(self.next[index as int]),
            PoolAction::StoreNext { .. } => PoolReply::Stored,
            PoolAction::SwapHead { current, .. } => PoolReply::Swapped(current == self.head),
            PoolAction::TakeCount { index: slot } => PoolReply::Word(self.counts[slot as int]),
            _ => PoolReply::Stored,
        }
    }

    /// The memory after an access; `free` are the free slots where the access
    /// changes the list. A count starts over from the largest number.
    pub open spec fn after(self, action: PoolAction, free: Seq<int>) -> Self {
        match action {
            PoolAction::StoreNext { index, value } => PoolMemory {
                next: self.next.update(index as int, value),
                ..self
            },
            PoolAction::SwapHead { current, new } => if current == self.head {
                PoolMemory { head: new, free, changes: self.changes + 1, ..self }
            } else {
                self
            },
            PoolAction::TakeCount { index: slot } => PoolMemory {
                counts: self.counts.update(
                    slot as int,
                    if self.counts[slot as int] == 0 {
                        usize::MAX
                    } else {
                        (self.counts[slot as int] - 1) as usize
                    },
                ),
                ..self
            },
            PoolAction::ClearCount { index: slot } => PoolMemory {
                counts: self.counts.update(slot as int, 0),
                ..self
            },
            _ => self,
        }
    }
}

/// One thread and its handle or its work on the pool. `seen` is the number of
/// changes that the list had seen when the thread read the head last.
pub enum Worker {
    Allocating { allocation: SlotAllocation, seen: nat },
    Holding { slot: usize },
    Releasing { release: SlotRelease, seen: nat },
}

impl Worker {
    /// The access that the thread wants.
    pub open spec fn action(self) -> PoolAction {
        match self {
            Worker::Allocating { allocation: run, .. } => run.action,
            Worker::Holding { slot } => PoolAction::Finished { slot: Some(slot) },
            Worker::Releasing { release: run, .. } => run.action,
        }
    }

    /// Whether the thread wants no access.
    pub open spec fn is_done(self) -> bool {
        self.action() is Finished
    }

    /// The slot that the thread has a handle to, if there is one: one that an
    /// allocation has won or that was shared with it, until its count is taken.
    pub open spec fn held(self) -> Option<int> {
        match self {
            Worker::Allocating { allocation: run, .. } => match run.action {
                PoolAction::Finished { slot: Some(slot) } => Some(slot as int),
                _ => None,
            },
            Worker::Holding { slot } => Some(slot as int),
            Worker::Releasing { release: run, .. } => if run.action is TakeCount {
                Some(run.slot as int)
            } else {
                None
            },
        }
    }

    /// The slot that the thread is about to free, if there is one: it has given up
    /// the last handle to it.
    pub open spec fn owned(self) -> Option<int> {
        match self {
            Worker::Releasing { release: run, .. } => if run.action is TakeCount || run.action
                is Finished {
                None
            } else {
                Some(run.slot as int)
            },
            _ => None,
        }
    }

    /// The thread's access hits the pool, and what the thread has read is true as
    /// long as the list has not changed since.
    pub open spec fn fits(self, memory: PoolMemory) -> bool {
        let cap = memory.next.len() as int;
        match self {
            Worker::Allocating { allocation: run, seen } => {
                &&& run.cap == cap
                &&& match run.action {
                    PoolAction::LoadHead => true,
                    PoolAction::LoadNext { index } => {
                        &&& has_read(memory, run.head, seen)
                        &&& index == index_of(run.head) < cap
                    },
                    PoolAction::SwapHead { current, new } => {
                        &&& has_read(memory, run.head, seen)
                        &&& current == run.head
                        &&& index_of(run.head) < cap
                        &&& memory.changes == seen ==> new == moved_head(
                            run.head,
                            free_link(memory.free, 1, cap) as usize,
                        )
                    },
                    PoolAction::Finished { slot } => slot is Some ==> slot->0 < cap,
                    _ => false,
                }
            },
            Worker::Holding { slot } => slot < cap,
            Worker::Releasing { release: run, seen } => {
                &&& run.slot < cap
                &&& match run.action {
                    PoolAction::TakeCount { index: slot } => slot == run.slot,
                    PoolAction::ClearCount { index: slot } => slot == run.slot,
                    PoolAction::DropElement { index: slot } => {
                        &&& slot == run.slot
                        &&& memory.counts[run.slot as int] == 0
                    },
                    PoolAction::LoadHead => memory.counts[run.slot as int] == 0,
                    PoolAction::LoadNext { .. } => false,
                    PoolAction::StoreNext { index, value } => {
                        &&& has_read(memory, run.head, seen)
                        &&& index == run.slot
                        &&& value == index_of(run.head)
                        &&& memory.counts[run.slot as int] == 0
                    },
                    PoolAction::SwapHead { current, new } => {
                        &&& has_read(memory, run.head, seen)
                        &&& current == run.head
                        &&& new == moved_head(run.head, run.slot)
                        &&& memory.next[run.slot as int] == index_of(run.head)
                        &&& memory.counts[run.slot as int] == 0
                    },
                    PoolAction::Finished { .. } => true,
                }
            },
        }
    }

    /// Fewer changes than there are tags have come since the thread read the head.
    pub open spec fn is_recent(self, memory: PoolMemory) -> bool {
        match self {
            Worker::Allocating { seen, .. } => memory.changes < seen + half(),
            Worker::Holding { .. } => true,
            Worker::Releasing { seen, .. } => memory.changes < seen + half(),
        }
    }

    /// The free slots after the thread has changed the list.
    pub open spec fn free_after(self, free: Seq<int>) -> Seq<int> {
        match self {
            Worker::Releasing { release: run, .. } => seq![run.slot as int] + free,
            _ => free.skip(1),
        }
    }

    /// The thread after its access to `memory`.
    pub open spec fn moved(self, memory: PoolMemory) -> Self {
        let reply = memory.answer(self.action());
        let seen_now = |seen: nat|
            if self.action() is LoadHead {
                memory.changes
            } else {
                seen
            };
        match self {
            Worker::Allocating { allocation: run, seen } => Worker::Allocating {
                allocation: run.next(reply),
                seen: seen_now(seen),
            },
            Worker::Holding { slot } => self,
            Worker::Releasing { release: run, seen } => Worker::Releasing {
                release: run.next(reply),
                seen: seen_now(seen),
            },
        }
    }
}

/// The head was `head` when the list had seen `seen` changes.
pub open spec fn has_read(memory: PoolMemory, head: usize, seen: nat) -> bool {
    &&& seen <= memory.changes
    &&& tag_of(head) == seen as int % half()
    &&& memory.changes == seen ==> head == memory.head
}

/// How many of the threads have a handle to the slot.
pub open spec fn handles(workers: Seq<Worker>, slot: int) -> nat
    decreases workers.len(),
{
    if workers.len() == 0 {
        0
    } else {
        handles(workers.drop_last(), slot) + if workers.last().held() == Some(slot) {
            1nat
        } else {
            0
        }
    }
}

/// The pool and all threads with a handle or at work on it.
pub struct PoolSystem {
    pub memory: PoolMemory,
    pub workers: Seq<Worker>,
}

impl PoolSystem {
    /// The list is intact and every thread fits it. A slot that threads have handles
    /// to is not free, and its count is one less than those handles. A slot that a
    /// thread is about to free is not free yet, nobody has a handle to it, and no
    /// other thread is about to free it.
    pub open spec fn wf(self) -> bool {
        &&& self.memory.wf()
        &&& forall|i: int|
            0 <= i < self.workers.len() ==> (#[trigger] self.workers[i]).fits(self.memory)
        &&& forall|slot: int| #[trigger]
            handles(self.workers, slot) > 0 ==> {
                &&& !self.memory.free.contains(slot)
                &&& self.memory.counts[slot] + 1 == handles(self.workers, slot)
            }
        &&& forall|i: int|
            0 <= i < self.workers.len() && (#[trigger] self.workers[i]).owned() is Some ==> {
                &&& !self.memory.free.contains(self.workers[i].owned()->0)
                &&& handles(self.workers, self.workers[i].owned()->0) == 0
            }
        &&& forall|i: int, j: int|
            0 <= i < j < self.workers.len() && (#[trigger] self.workers[i]).owned() is Some && (
            #[trigger] self.workers[j]).owned() is Some ==> self.workers[i].owned()
                != self.workers[j].owned()
    }

    /// The system after one access of the thread `i`.
    pub open spec fn stepped(self, i: int) -> Self {
        let worker = self.workers[i];
        PoolSystem {
            memory: self.memory.after(worker.action(), worker.free_after(self.memory.free)),
            workers: self.workers.update(i, worker.moved(self.memory)),
        }
    }
}

/// A head that the list has again after fewer changes than there are tags has not
/// changed at all.
proof fn lemma_same_head(memory: PoolMemory, head: usize, seen: nat)
    requires
        memory.wf(),
        has_read(memory, head, seen),
        memory.changes < seen + half(),
        head == memory.head,
    ensures
        memory.changes == seen,
{
    let changes = memory.changes - seen;
    let tag = seen as int % half();
    lemma_mod_bound(seen as int, half());
    lemma_add_mod_noop(seen as int, changes, half());
    lemma_small_mod(changes as nat, half() as nat);
    if changes > 0 {
        crate::mempool::law_stale_head_is_recognised(tag, changes);
    }
}

/// What a moved head holds.
proof fn lemma_moved_head(head: usize, first: usize, changes: nat)
    requires
        first < half(),
        tag_of(head) == changes as int % half(),
    ensures
        index_of(moved_head(head, first)) == first,
        tag_of(moved_head(head, first)) == (changes + 1) as int % half(),
{
    lemma_mod_bound(changes as int, half());
    let tag = (tag_of(head) + 1) as usize;
    lemma_packed(tag, first);
    crate::mempool::law_pack_round_trip(tag as int, first as int, 0);
    lemma_add_mod_noop(changes as int, 1, half());
    lemma_small_mod(1, half() as nat);
}

/// The list after its first slot was taken from it.
proof fn lemma_allocated(memory: PoolMemory, new: usize)
    requires
        memory.wf(),
        memory.free.len() > 0,
        new == moved_head(
            memory.head,
            free_link(memory.free, 1, memory.next.len() as int) as usize,
        ),
    ensures
        (PoolMemory {
            head: new,
            free: memory.free.skip(1),
            changes: memory.changes + 1,
            ..memory
        }).wf(),
        !memory.free.skip(1).contains(memory.free[0]),
        forall|slot: int| memory.free.skip(1).contains(slot) ==> memory.free.contains(slot),
{
    let cap = memory.next.len() as int;
    let free = memory.free.skip(1);
    lemma_moved_head(memory.head, free_link(memory.free, 1, cap) as usize, memory.changes);
    assert forall|i: int| 0 <= i < free.len() implies memory.next[#[trigger] free[i]] == free_link(
        free,
        i + 1,
        cap,
    ) by {
        assert(free[i] == memory.free[i + 1]);
    }
    assert forall|slot: int| free.contains(slot) implies memory.free.contains(slot) && slot
        != memory.free[0] by {
        let i = choose|i: int| 0 <= i < free.len() && free[i] == slot;
        assert(memory.free[i + 1] == slot);
    }
}

/// The list after a slot that was linked to its first was put in front.
proof fn lemma_released(memory: PoolMemory, new: usize, slot: int)
    requires
        memory.wf(),
        0 <= slot < memory.next.len(),
        !memory.free.contains(slot),
        memory.next[slot] == index_of(memory.head),
        memory.counts[slot] == 0,
        new == moved_head(memory.head, slot as usize),
    ensures
        (PoolMemory {
            head: new,
            free: seq![slot] + memory.free,
            changes: memory.changes + 1,
            ..memory
        }).wf(),
        forall|other: int| (seq![slot] + memory.free).contains(other) ==> other == slot
            || memory.free.contains(other),
{
    let cap = memory.next.len() as int;
    let free = seq![slot] + memory.free;
    lemma_moved_head(memory.head, slot as usize, memory.changes);
    assert forall|i: int| 0 <= i < free.len() implies memory.next[#[trigger] free[i]] == free_link(
        free,
        i + 1,
        cap,
    ) by {
        if i > 0 {
            assert(free[i] == memory.free[i - 1]);
        }
    }
    assert forall|other: int| free.contains(other) implies other == slot || memory.free.contains(
        other,
    ) by {
        let i = choose|i: int| 0 <= i < free.len() && free[i] == other;
        if i > 0 {
            assert(memory.free[i - 1] == other);
        }
    }
    assert forall|i: int, j: int| 0 <= i < free.len() && 0 <= j < free.len() && i
        != j implies free[i] != free[j] by {
        if i > 0 {
            assert(memory.free[i - 1] == free[i]);
        }
        if j > 0 {
            assert(memory.free[j - 1] == free[j]);
        }
    }
}

/// An access of an allocation keeps the list intact. The allocation ends with the
/// slot that was the first free one, which then is free no longer, or without a
/// slot where none was free; until then the access changes nothing.
pub proof fn law_allocation_step_keeps_pool(memory: PoolMemory, run: SlotAllocation, seen: nat)
    requires
        memory.wf(),
        !(run.action is Finished),
        ({
            let worker = Worker::Allocating { allocation: run, seen };
            worker.fits(memory) && worker.is_recent(memory)
        }),
    ensures
        ({
            let worker = Worker::Allocating { allocation: run, seen };
            let after = memory.after(run.action, worker.free_after(memory.free));
            let moved = run.next(memory.answer(run.action));
            &&& after.wf()
            &&& worker.moved(memory).fits(after)
            &&& match moved.action {
                PoolAction::Finished { slot: Some(slot) } => {
                    &&& memory.free.len() > 0
                    &&& slot == memory.free[0]
                    &&& after.free == memory.free.skip(1)
                    &&& !after.free.contains(slot as int)
                },
                PoolAction::Finished { slot: None } => memory.free.len() == 0 && after == memory,
                _ => after == memory,
            }
        }),
{
    let cap = memory.next.len() as int;
    match run.action {
        PoolAction::SwapHead { current, new } => {
            if current == memory.head {
                lemma_same_head(memory, run.head, seen);
                lemma_allocated(memory, new);
            }
        },
        PoolAction::LoadNext { index } => {
            if memory.changes == seen {
                assert(memory.free.len() > 0);
                assert(memory.next[memory.free[0]] == free_link(memory.free, 1, cap));
            }
        },
        _ => {},
    }
}

/// An access of a release keeps the list intact, and leaves the counts of other
/// slots. Where it was not the last handle to its slot the release ends at once. It
/// ends otherwise with its slot as the first free one; until then the access changes
/// no free slot and no order.
pub proof fn law_release_step_keeps_pool(memory: PoolMemory, run: SlotRelease, seen: nat)
    requires
        memory.wf(),
        !(run.action is Finished),
        !memory.free.contains(run.slot as int),
        ({
            let worker = Worker::Releasing { release: run, seen };
            worker.fits(memory) && worker.is_recent(memory)
        }),
    ensures
        ({
            let worker = Worker::Releasing { release: run, seen };
            let after = memory.after(run.action, worker.free_after(memory.free));
            let moved = run.next(memory.answer(run.action));
            &&& after.wf()
            &&& worker.moved(memory).fits(after)
            &&& forall|slot: int|
                slot != run.slot && 0 <= slot < memory.counts.len() ==> #[trigger]
                after.counts[slot] == memory.counts[slot]
            &&& if moved.action == (PoolAction::Finished { slot: Some(run.slot) }) {
                after.free == seq![run.slot as int] + memory.free
            } else {
                after.free == memory.free && after.head == memory.head
            }
            &&& moved.action == (PoolAction::Finished { slot: None }) <==> run.action is TakeCount
                && memory.counts[run.slot as int] > 0
        }),
{
    let after = memory.after(
        run.action,
        Worker::Releasing { release: run, seen }.free_after(memory.free),
    );
    assert(forall|i: int|
        0 <= i < memory.free.len() ==> memory.free.contains(#[trigger] memory.free[i]));
    match run.action {
        PoolAction::SwapHead { current, new } => {
            if current == memory.head {
                lemma_same_head(memory, run.head, seen);
                lemma_released(memory, new, run.slot as int);
            }
        },
        PoolAction::StoreNext { index, value } => {
            assert forall|i: int| 0 <= i < memory.free.len() implies after.next[
                #[trigger] memory.free[i]
            ] == memory.next[memory.free[i]] by {
                assert(memory.free.contains(memory.free[i]));
            }
        },
        _ => {},
    }
}

/// One thread more or less changes the handles to a slot by its own.
proof fn lemma_handles_update(workers: Seq<Worker>, i: int, worker: Worker, slot: int)
    requires
        0 <= i < workers.len(),
    ensures
        handles(workers.update(i, worker), slot) + (if workers[i].held() == Some(slot) {
            1nat
        } else {
            0
        }) == handles(workers, slot) + (if worker.held() == Some(slot) {
            1nat
        } else {
            0
        }),
    decreases workers.len(),
{
    let updated = workers.update(i, worker);
    if i == workers.len() - 1 {
        assert(updated.drop_last() =~= workers.drop_last());
    } else {
        assert(updated.drop_last() =~= workers.drop_last().update(i, worker));
        lemma_handles_update(workers.drop_last(), i, worker, slot);
    }
}

/// A thread with a handle is counted.
proof fn lemma_held_is_counted(workers: Seq<Worker>, i: int, slot: int)
    requires
        0 <= i < workers.len(),
        workers[i].held() == Some(slot),
    ensures
        handles(workers, slot) > 0,
    decreases workers.len(),
{
    if i < workers.len() - 1 {
        lemma_held_is_counted(workers.drop_last(), i, slot);
    }
}

/// A slot that is counted is one of the pool's.
proof fn lemma_counted_slot_exists(workers: Seq<Worker>, memory: PoolMemory, slot: int)
    requires
        forall|i: int| 0 <= i < workers.len() ==> (#[trigger] workers[i]).fits(memory),
        handles(workers, slot) > 0,
    ensures
        0 <= slot < memory.next.len(),
    decreases workers.len(),
{
    assert(workers.last().fits(memory));
    if workers.last().held() != Some(slot) {
        assert forall|i: int| 0 <= i < workers.drop_last().len() implies (
        #[trigger] workers.drop_last()[i]).fits(memory) by {
            assert(workers[i].fits(memory));
        }
        lemma_counted_slot_exists(workers.drop_last(), memory, slot);
    }
}

/// However the accesses of the threads are interleaved, the list of free slots
/// stays intact, and a slot is freed only after the last handle to it was given up,
/// and once, as long as between a thread's read of the head and its swap the list
/// changes fewer times than there are tags.
pub proof fn law_interleaved_pool_stays_sound(system: PoolSystem, i: int)
    requires
        system.wf(),
        0 <= i < system.workers.len(),
        !system.workers[i].is_done(),
        system.workers[i].is_recent(system.memory),
    ensures
        system.stepped(i).wf(),
{
    let memory = system.memory;
    let worker = system.workers[i];
    let next = system.stepped(i);
    let after = next.memory;
    let moved = worker.moved(memory);
    assert(worker.fits(memory));
    if worker.held() is Some {
        lemma_held_is_counted(system.workers, i, worker.held()->0);
    }
    match worker {
        Worker::Allocating { allocation: run, seen } => {
            law_allocation_step_keeps_pool(memory, run, seen);
            if after.free != memory.free {
                lemma_skip_is_part(memory.free);
            }
        },
        Worker::Holding { .. } => {},
        Worker::Releasing { release: run, seen } => {
            law_release_step_keeps_pool(memory, run, seen);
        },
    }
    assert forall|slot: int| after.free.contains(slot) implies memory.free.contains(slot)
        || worker.owned() == Some(slot) by {
        if after.free != memory.free && worker is Releasing {
            let k = choose|k: int| 0 <= k < after.free.len() && after.free[k] == slot;
            if k > 0 {
                assert(memory.free[k - 1] == slot);
            }
        }
    }
    assert forall|slot: int| #[trigger] handles(next.workers, slot) > 0 implies {
        &&& !after.free.contains(slot)
        &&& after.counts[slot] + 1 == handles(next.workers, slot)
    } by {
        lemma_handles_update(system.workers, i, moved, slot);
        if handles(system.workers, slot) > 0 {
            lemma_counted_slot_exists(system.workers, memory, slot);
        } else {
            assert(moved.held() == Some(slot));
            assert(memory.free.contains(memory.free[0]));
        }
    }
    assert forall|j: int|
        0 <= j < next.workers.len() && (#[trigger] next.workers[j]).owned() is Some implies {
        &&& !after.free.contains(next.workers[j].owned()->0)
        &&& handles(next.workers, next.workers[j].owned()->0) == 0
    } by {
        let slot = next.workers[j].owned()->0;
        lemma_handles_update(system.workers, i, moved, slot);
        if j != i {
            assert(system.workers[j].owned() == Some(slot));
            if moved.held() == Some(slot) && worker.held() != Some(slot) {
                assert(memory.free.contains(memory.free[0]));
            }
            if i < j {
                assert(worker.owned() is Some ==> worker.owned() != Some(slot));
            } else {
                assert(worker.owned() is Some ==> worker.owned() != Some(slot));
            }
        }
    }
    assert forall|j: int| 0 <= j < next.workers.len() implies (#[trigger] next.workers[j]).fits(
        after,
    ) by {
        if j != i {
            let other = system.workers[j];
            assert(other.fits(memory));
            if other.owned() is Some {
                assert(handles(system.workers, other.owned()->0) == 0);
                if i < j {
                    assert(worker.owned() is Some ==> worker.owned() != other.owned());
                } else {
                    assert(worker.owned() is Some ==> worker.owned() != other.owned());
                }
                assert(worker.held() != other.owned());
            }
        }
    }
    assert forall|a: int, b: int|
        0 <= a < b < next.workers.len() && (#[trigger] next.workers[a]).owned() is Some && (
        #[trigger] next.workers[b]).owned() is Some implies next.workers[a].owned()
        != next.workers[b].owned() by {
        if a == i {
            assert(system.workers[b].owned() is Some);
        }
        if b == i {
            assert(system.workers[a].owned() is Some);
        }
        if a != i && b != i {
            assert(system.workers[a].owned() is Some && system.workers[b].owned() is Some);
        }
    }
}

proof fn lemma_skip_is_part(free: Seq<int>)
    requires
        free.len() > 0,
    ensures
        forall|slot: int| free.skip(1).contains(slot) ==> free.contains(slot),
{
    assert forall|slot: int| free.skip(1).contains(slot) implies free.contains(slot) by {
        let i = choose|i: int| 0 <= i < free.skip(1).len() && free.skip(1)[i] == slot;
        assert(free[i + 1] == slot);
    }
}

/// A value is dropped only when no thread has a handle to its slot, and no other
/// thread is about to drop it.
pub proof fn law_value_outlives_its_handles(system: PoolSystem, i: int, j: int, slot: usize)
    requires
        system.wf(),
        0 <= i < system.workers.len(),
        0 <= j < system.workers.len(),
        system.workers[i].action() == (PoolAction::DropElement { index: slot }),
    ensures
        system.workers[j].held() != Some(slot as int),
        i != j ==> system.workers[j].action() != (PoolAction::DropElement { index: slot }),
{
    assert(system.workers[i].fits(system.memory));
    assert(system.workers[i].owned() == Some(slot as int));
    if system.workers[j].held() == Some(slot as int) {
        lemma_held_is_counted(system.workers, j, slot as int);
    }
    if i != j && system.workers[j].action() == (PoolAction::DropElement { index: slot }) {
        assert(system.workers[j].fits(system.memory));
        assert(system.workers[j].owned() == Some(slot as int));
        if i < j {
            assert(system.workers[i].owned() != system.workers[j].owned());
        } else {
            assert(system.workers[j].owned() != system.workers[i].owned());
        }
    }
}

/// A pool in which every slot leads to the one behind it and nobody is at work is
/// sound, with all slots free.
pub proof fn law_fresh_pool_is_sound(next: Seq<usize>, counts: Seq<usize>)
    requires
        next.len() < half(),
        counts.len() == next.len(),
        forall|i: int| 0 <= i < next.len() ==> #[trigger] next[i] == i + 1,
        forall|i: int| 0 <= i < next.len() ==> #[trigger] counts[i] == 0,
    ensures
        (PoolSystem {
            memory: PoolMemory {
                head: 0,
                next,
                counts,
                free: Seq::new(next.len(), |i: int| i),
                changes: 0,
            },
            workers: Seq::empty(),
        }).wf(),
{
    lemma_small_mod(0, half() as nat);
    lemma_fundamental_div_mod_converse(0, half(), 0, 0);
}

/// A thread may start an allocation at any time.
pub proof fn law_allocation_may_start(system: PoolSystem)
    requires
        system.wf(),
    ensures
        ({
            let run = SlotAllocation {
                cap: system.memory.next.len() as usize,
                head: 0,
                action: PoolAction::LoadHead,
            };
            (PoolSystem {
                workers: system.workers.push(Worker::Allocating { allocation: run, seen: 0 }),
                ..system
            }).wf()
        }),
{
    let run = SlotAllocation {
        cap: system.memory.next.len() as usize,
        head: 0,
        action: PoolAction::LoadHead,
    };
    let worker = Worker::Allocating { allocation: run, seen: 0 };
    let workers = system.workers.push(worker);
    assert(workers.drop_last() =~= system.workers);
    assert forall|slot: int| #[trigger] handles(workers, slot) == handles(
        system.workers,
        slot,
    ) by {
        assert(workers.last() == worker);
    }
    assert forall|j: int| 0 <= j < workers.len() && (#[trigger] workers[j]).owned() is Some implies j
        < system.workers.len() && workers[j] == system.workers[j] by {
    }
}

/// A thread may at any time share the slot that it has a handle to with another one.
pub proof fn law_handle_may_be_shared(system: PoolSystem, i: int, slot: usize)
    requires
        system.wf(),
        0 <= i < system.workers.len(),
        system.workers[i].held() == Some(slot as int),
        system.memory.counts[slot as int] < usize::MAX,
    ensures
        (PoolSystem {
            memory: PoolMemory {
                counts: system.memory.counts.update(
                    slot as int,
                    (system.memory.counts[slot as int] + 1) as usize,
                ),
                ..system.memory
            },
            workers: system.workers.push(Worker::Holding { slot }),
        }).wf(),
{
    let memory = system.memory;
    let worker = Worker::Holding { slot };
    let workers = system.workers.push(worker);
    let after = PoolMemory {
        counts: memory.counts.update(slot as int, (memory.counts[slot as int] + 1) as usize),
        ..memory
    };
    assert(system.workers[i].fits(memory));
    lemma_held_is_counted(system.workers, i, slot as int);
    assert(workers.drop_last() =~= system.workers);
    assert forall|s: int| #[trigger] handles(workers, s) == handles(system.workers, s) + (if s
        == slot {
        1nat
    } else {
        0
    }) by {
        assert(workers.last() == worker);
    }
    assert(forall|k: int|
        0 <= k < memory.free.len() ==> memory.free.contains(#[trigger] memory.free[k]));
    assert forall|s: int| #[trigger] handles(workers, s) > 0 implies {
        &&& !after.free.contains(s)
        &&& after.counts[s] + 1 == handles(workers, s)
    } by {
        assert(handles(system.workers, s) > 0);
        lemma_counted_slot_exists(system.workers, memory, s);
    }
    assert forall|j: int| 0 <= j < workers.len() implies (#[trigger] workers[j]).fits(after) by {
        if j < system.workers.len() {
            let other = system.workers[j];
            assert(other.fits(memory));
            if other.owned() is Some {
                assert(handles(system.workers, other.owned()->0) == 0);
            }
        }
    }
    assert forall|j: int| 0 <= j < workers.len() && (#[trigger] workers[j]).owned() is Some implies {
        &&& !after.free.contains(workers[j].owned()->0)
        &&& handles(workers, workers[j].owned()->0) == 0
    } by {
        assert(system.workers[j].owned() is Some);
    }
}

/// A thread may at any time start to give up its handle.
pub proof fn law_handle_may_be_given_up(system: PoolSystem, i: int, slot: usize)
    requires
        system.wf(),
        0 <= i < system.workers.len(),
        system.workers[i] is Allocating || system.workers[i] is Holding,
        system.workers[i].held() == Some(slot as int),
    ensures
        (PoolSystem {
            workers: system.workers.update(
                i,
                Worker::Releasing { release: SlotRelease::started(slot), seen: 0 },
            ),
            ..system
        }).wf(),
{
    let worker = Worker::Releasing { release: SlotRelease::started(slot), seen: 0 };
    let next = PoolSystem { workers: system.workers.update(i, worker), ..system };
    assert(system.workers[i].fits(system.memory));
    assert forall|s: int| #[trigger] handles(next.workers, s) == handles(system.workers, s) by {
        lemma_handles_update(system.workers, i, worker, s);
    }
    assert forall|j: int| 0 <= j < next.workers.len() implies (#[trigger] next.workers[j]).fits(
        next.memory,
    ) && next.workers[j].owned() == system.workers[j].owned() by {
        assert(system.workers[j].fits(system.memory));
    }
}

/// An allocation that no other thread interferes with takes three accesses: it
/// ends with the first free slot. Where no slot is free it ends after one.
pub proof fn law_undisturbed_allocation(memory: PoolMemory)
    requires
        memory.wf(),
    ensures
        ({
            let start = SlotAllocation {
                cap: memory.next.len() as usize,
                head: 0,
                action: PoolAction::LoadHead,
            };
            let first = start.next(memory.answer(start.action));
            let second = first.next(memory.answer(first.action));
            let third = second.next(memory.answer(second.action));
            if memory.free.len() == 0 {
                first.action == (PoolAction::Finished { slot: None })
            } else {
                &&& third.action == (PoolAction::Finished { slot: Some(memory.free[0] as usize) })
                &&& memory.after(second.action, memory.free.skip(1)).wf()
            }
        }),
{
    let start = SlotAllocation {
        cap: memory.next.len() as usize,
        head: 0,
        action: PoolAction::LoadHead,
    };
    let first = start.next(memory.answer(start.action));
    law_allocation_step_keeps_pool(memory, start, memory.changes);
    if memory.free.len() > 0 {
        let second = first.next(memory.answer(first.action));
        law_allocation_step_keeps_pool(memory, first, memory.changes);
        law_allocation_step_keeps_pool(memory, second, memory.changes);
    }
}

/// A last handle that is given up while no other thread interferes takes six
/// accesses: its slot is then the first free one, with no further handles counted.
/// One that is not the last takes one, which counts it off.
pub proof fn law_undisturbed_release(memory: PoolMemory, slot: usize)
    requires
        memory.wf(),
        slot < memory.next.len(),
        !memory.free.contains(slot as int),
    ensures
        ({
            let (end, after) = run_release(SlotRelease::started(slot), memory, 6);
            let count = memory.counts[slot as int];
            if count == 0 {
                &&& end.action == (PoolAction::Finished { slot: Some(slot) })
                &&& after.free == seq![slot as int] + memory.free
                &&& after.counts == memory.counts
                &&& after.wf()
            } else {
                let (first, counted) = run_release(SlotRelease::started(slot), memory, 1);
                &&& first.action == (PoolAction::Finished { slot: None })
                &&& counted == (PoolMemory {
                    counts: memory.counts.update(slot as int, (count - 1) as usize),
                    ..memory
                })
            }
        }),
{
    let start = SlotRelease::started(slot);
    let seen = memory.changes;
    reveal_with_fuel(run_release, 7);
    law_release_step_keeps_pool(memory, start, seen);
    if memory.counts[slot as int] == 0 {
        let (r1, m1) = run_release(start, memory, 1);
        law_release_step_keeps_pool(m1, r1, seen);
        let (r2, m2) = run_release(start, memory, 2);
        assert(m2.counts =~= memory.counts);
        law_release_step_keeps_pool(m2, r2, seen);
        let (r3, m3) = run_release(start, memory, 3);
        law_release_step_keeps_pool(m3, r3, seen);
        let (r4, m4) = run_release(start, memory, 4);
        law_release_step_keeps_pool(m4, r4, seen);
        let (r5, m5) = run_release(start, memory, 5);
        law_release_step_keeps_pool(m5, r5, seen);
    }
}

/// The release and the memory after so many accesses that nobody interferes with.
pub open spec fn run_release(run: SlotRelease, memory: PoolMemory, steps: nat) -> (
    SlotRelease,
    PoolMemory,
)
    decreases steps,
{
    if steps == 0 {
        (run, memory)
    } else {
        let (before, between) = run_release(run, memory, (steps - 1) as nat);
        (
            before.next(between.answer(before.action)),
            between.after(before.action, seq![before.slot as int] + between.free),
        )
    }
}

/// An allocation that reads the head of an intact list finds the pool exhausted exactly
/// where no slot is free, and otherwise goes for the first free slot.
pub proof fn law_allocation_fails_only_when_exhausted(
    memory: PoolMemory,
    allocation: SlotAllocation,
)
    requires
        memory.wf(),
        allocation.cap == memory.next.len(),
        allocation.action == PoolAction::LoadHead,
    ensures
        ({
            let after = allocation.next(memory.answer(PoolAction::LoadHead));
            &&& after.cap == allocation.cap
            &&& after.head == memory.head
            &&& memory.free.len() == 0 ==> after.action == (PoolAction::Finished { slot: None })
            &&& memory.free.len() > 0 ==> after.action == (PoolAction::LoadNext {
                index: memory.free[0] as usize,
            })
        }),
{
}

/// Whatever other threads do meanwhile, an operation ends only where it has reached what
/// it is for: an allocation ends with the slot whose head it has swapped, a release ends
/// with the slot once it has swapped that in front, or without one where others still
/// have handles. One that has lost the head reads it again.
pub proof fn law_operations_end_with_their_slot(
    allocation: SlotAllocation,
    release: SlotRelease,
    allocation_reply: PoolReply,
    release_reply: PoolReply,
)
    requires
        answers_pool(allocation.action, allocation_reply),
        answers_pool(release.action, release_reply),
    ensures
        ({
            let after = allocation.next(allocation_reply);
            &&& after.cap == allocation.cap
            &&& after.action matches PoolAction::Finished { slot: Some(slot) } ==> {
                &&& allocation_reply == PoolReply::Swapped(true)
                &&& slot as int == allocation.head as int % half()
            }
            &&& allocation_reply == PoolReply::Swapped(true) ==> (after.action matches
                PoolAction::Finished { slot } && slot is Some)
            &&& allocation_reply == PoolReply::Swapped(false) ==> after.action
                == PoolAction::LoadHead
            &&& allocation.action is LoadNext ==> (after.action matches PoolAction::SwapHead {
                current,
                ..
            } && current == allocation.head)
            &&& allocation.action is LoadNext || allocation.action is SwapHead ==> after.head
                == allocation.head
        }),
        ({
            let after = release.next(release_reply);
            &&& after.slot == release.slot
            &&& release_reply == PoolReply::Swapped(true) ==> after.action == (
            PoolAction::Finished { slot: Some(release.slot) })
            &&& release_reply == PoolReply::Swapped(false) ==> after.action == PoolAction::LoadHead
            &&& release.action is TakeCount ==> (release_reply == PoolReply::Word(0)
                <==> after.action == (PoolAction::ClearCount { index: release.slot }))
            &&& release.action is TakeCount && release_reply != PoolReply::Word(0) ==> after.action
                == (PoolAction::Finished { slot: None })
            &&& release.action is ClearCount ==> after.action == (PoolAction::DropElement {
                index: release.slot,
            })
            &&& release.action is DropElement ==> after.action == PoolAction::LoadHead
            &&& release.action is LoadHead ==> release_reply == PoolReply::Word(after.head) && (
            after.action matches PoolAction::StoreNext { index, value } && index == release.slot
                && value as int == after.head as int % half())
            &&& release.action is StoreNext ==> after.head == release.head && (
            after.action matches PoolAction::SwapHead { current, .. } && current == release.head)
        }),
{
    vstd::arithmetic::div_mod::lemma_mod_bound(allocation.head as int, half());
    if release_reply is Word {
        vstd::arithmetic::div_mod::lemma_mod_bound(release_reply->Word_0 as int, half());
    }
}

} // verus!
