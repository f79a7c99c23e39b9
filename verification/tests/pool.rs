use shmfeeder::mempool::{pack, unpack, MemPool, SlotHandle, TryAllocFailReason};
use shmfeeder::pool_steps::{PoolAction, PoolReply, SlotAllocation, SlotRelease};
use std::rc::Rc;

#[test]
fn packing_keeps_index_and_low_half_of_tag() {
    let half: usize = 1 << (usize::BITS / 2);
    assert_eq!(pack(0, 0), 0);
    assert_eq!(pack(3, 5), 3 * half + 5);
    assert_eq!(unpack(pack(3, 5)), (3, 5));
    assert_eq!(pack(half, 9), 9);
    assert_eq!(unpack(usize::MAX), (half - 1, half - 1));
}

#[test]
fn slots_are_handed_out_in_order_and_reused() {
    let mut pool: MemPool<u32> = MemPool::new(3);
    let mut handles: Vec<SlotHandle<u32>> = Vec::new();
    for i in 0..3 {
        let mut handle = SlotHandle::empty();
        assert!(pool.allocate(&mut handle));
        assert_eq!(handle.idx, i);
        handle.init(&mut pool, 100 + i as u32);
        handles.push(handle);
    }
    let mut none = SlotHandle::empty();
    assert!(!pool.allocate(&mut none));
    assert_eq!(pool.try_alloc(&mut none), Some(TryAllocFailReason::BufferFull));
    assert_eq!(none.idx, usize::MAX);
    for (i, handle) in handles.iter().enumerate() {
        assert_eq!(*handle.get(&pool), 100 + i as u32);
    }
    handles.remove(1).drop(&mut pool);
    let mut again = SlotHandle::empty();
    assert_eq!(pool.try_alloc(&mut again), None);
    assert_eq!(again.idx, 1);
    assert!(!pool.allocate(&mut none));
}

#[test]
fn unchecked_allocation_takes_the_first_free_slot() {
    let mut pool: MemPool<u32> = MemPool::new(2);
    let mut first = SlotHandle::empty();
    assert!(pool.try_alloc_unchecked(&mut first));
    let mut second = SlotHandle::empty();
    pool.alloc_unchecked(&mut second);
    assert_eq!((first.idx, second.idx), (0, 1));
}

#[test]
fn value_lives_as_long_as_its_handles() {
    let value = Rc::new(7);
    let mut pool: MemPool<Rc<i32>> = MemPool::new(1);
    let mut handle = SlotHandle::empty();
    assert!(pool.allocate(&mut handle));
    handle.init(&mut pool, value.clone());
    let other = handle.clone(&mut pool);
    assert_eq!(other.idx, handle.idx);
    handle.drop(&mut pool);
    assert_eq!(Rc::strong_count(&value), 2);
    assert_eq!(**other.get(&pool), 7);
    other.drop(&mut pool);
    assert_eq!(Rc::strong_count(&value), 1);
    let mut next = SlotHandle::empty();
    assert!(pool.allocate(&mut next));
}

#[test]
fn reused_slot_is_freed_again() {
    let value = Rc::new(7);
    let mut pool: MemPool<Rc<i32>> = MemPool::new(1);
    for _ in 0..10 {
        let mut handle = SlotHandle::empty();
        assert!(pool.allocate(&mut handle));
        handle.init(&mut pool, value.clone());
        assert_eq!(Rc::strong_count(&value), 2);
        handle.drop(&mut pool);
        assert_eq!(Rc::strong_count(&value), 1);
    }
}

#[test]
fn allocating_into_a_held_handle_gives_its_slot_up() {
    let value = Rc::new(7);
    let mut pool: MemPool<Rc<i32>> = MemPool::new(2);
    let mut handle = SlotHandle::empty();
    assert!(pool.allocate(&mut handle));
    handle.init(&mut pool, value.clone());
    assert!(pool.allocate(&mut handle));
    assert_eq!(handle.idx, 1);
    assert_eq!(Rc::strong_count(&value), 1);
    handle.init(&mut pool, value.clone());
    let other = handle.clone(&mut pool);
    // Slot 0 came back, and slot 1 has another handle.
    assert_eq!(pool.try_alloc(&mut handle), None);
    assert_eq!(handle.idx, 0);
    assert_eq!(Rc::strong_count(&value), 2);
    assert_eq!(**other.get(&pool), 7);
    // Nothing is free, so the handle keeps what it has.
    assert!(!pool.allocate(&mut handle));
    assert_eq!(handle.idx, 0);
    other.drop(&mut pool);
    assert_eq!(Rc::strong_count(&value), 1);
    pool.alloc_unchecked(&mut handle);
    assert_eq!(handle.idx, 1);
    assert!(pool.try_alloc_unchecked(&mut handle));
    assert_eq!(handle.idx, 0);
}

#[test]
fn raw_buffer_gives_slot_size_over_length_slots() {
    assert!(MemPool::<u64>::from_raw_buffer(25).is_none());
    let mut pool = MemPool::<u64>::from_raw_buffer(8).unwrap();
    for i in 0..3 {
        let mut handle = SlotHandle::empty();
        assert!(pool.allocate(&mut handle));
        assert_eq!(handle.idx, i);
    }
    assert!(!pool.allocate(&mut SlotHandle::empty()));
}

struct Shared {
    head: usize,
    next: Vec<usize>,
    counts: Vec<usize>,
    values: Vec<bool>,
}

impl Shared {
    fn new(cap: usize) -> Self {
        Shared { head: 0, next: (1..=cap).collect(), counts: vec![0; cap], values: vec![false; cap] }
    }

    fn perform(&mut self, action: PoolAction) -> PoolReply {
        match action {
            PoolAction::LoadHead => PoolReply::Word(self.head),
            PoolAction::LoadNext { index } => PoolReply::Word(self.next[index]),
            PoolAction::StoreNext { index, value } => {
                self.next[index] = value;
                PoolReply::Stored
            }
            PoolAction::SwapHead { current, new } => {
                let won = self.head == current;
                if won {
                    self.head = new;
                }
                PoolReply::Swapped(won)
            }
            PoolAction::TakeCount { index } => {
                let count = self.counts[index];
                self.counts[index] = count.wrapping_sub(1);
                PoolReply::Word(count)
            }
            PoolAction::ClearCount { index } => {
                self.counts[index] = 0;
                PoolReply::Stored
            }
            PoolAction::DropElement { index } => {
                assert!(self.values[index]);
                self.values[index] = false;
                PoolReply::Stored
            }
            PoolAction::Finished { .. } => panic!("nothing left to do"),
        }
    }

    fn allocate(&mut self, run: &mut SlotAllocation) -> Option<usize> {
        loop {
            if let PoolAction::Finished { slot } = run.action {
                if let Some(slot) = slot {
                    self.values[slot] = true;
                }
                return slot;
            }
            run.resume(self.perform(run.action));
        }
    }

    fn release(&mut self, slot: usize) -> Option<usize> {
        let mut run = SlotRelease::new(slot);
        loop {
            if let PoolAction::Finished { slot } = run.action {
                return slot;
            }
            run.resume(self.perform(run.action));
        }
    }
}

#[test]
fn stale_allocation_starts_over() {
    let mut shared = Shared::new(3);
    let mut slow = SlotAllocation::new(3);
    for _ in 0..2 {
        slow.resume(shared.perform(slow.action));
    }
    assert_eq!(slow.action, PoolAction::SwapHead { current: 0, new: pack(1, 1) });
    // Meanwhile slots 0 and 1 are taken and slot 0 comes back: the index in the
    // head is the same again, the tag is not.
    assert_eq!(shared.allocate(&mut SlotAllocation::new(3)), Some(0));
    assert_eq!(shared.allocate(&mut SlotAllocation::new(3)), Some(1));
    assert_eq!(shared.release(0), Some(0));
    assert_eq!(shared.head, pack(3, 0));
    slow.resume(shared.perform(slow.action));
    assert_eq!(slow.action, PoolAction::LoadHead);
    assert_eq!(shared.allocate(&mut slow), Some(0));
    assert_eq!(shared.allocate(&mut SlotAllocation::new(3)), Some(2));
    assert_eq!(shared.allocate(&mut SlotAllocation::new(3)), None);
}

#[test]
fn only_the_last_handle_frees_its_slot() {
    let mut shared = Shared::new(2);
    assert_eq!(shared.allocate(&mut SlotAllocation::new(2)), Some(0));
    shared.counts[0] += 1;
    assert_eq!(shared.release(0), None);
    assert!(shared.values[0]);
    assert_eq!(shared.release(0), Some(0));
    assert_eq!((shared.values[0], shared.counts[0]), (false, 0));
    assert_eq!(shared.allocate(&mut SlotAllocation::new(2)), Some(0));
}

#[test]
fn interleaved_threads_never_share_a_slot() {
    let cap: usize = 5;
    let mut shared = Shared::new(cap);
    let mut allocations: Vec<SlotAllocation> = (0..4).map(|_| SlotAllocation::new(cap)).collect();
    let mut releases: Vec<Option<SlotRelease>> = vec![None; 4];
    let mut state: u64 = 12345;
    let mut rounds: usize = 0;
    while rounds < 2000 {
        state = state.wrapping_mul(6364136223846793005).wrapping_add(1442695040888963407);
        let who = (state >> 33) as usize % 4;
        if let Some(run) = &mut releases[who] {
            run.resume(shared.perform(run.action));
            if matches!(run.action, PoolAction::Finished { .. }) {
                releases[who] = None;
                allocations[who] = SlotAllocation::new(cap);
                rounds += 1;
            }
        } else if let PoolAction::Finished { slot } = allocations[who].action {
            let slot = slot.expect("four threads, five slots");
            shared.values[slot] = true;
            releases[who] = Some(SlotRelease::new(slot));
        } else {
            let action = allocations[who].action;
            allocations[who].resume(shared.perform(action));
        }
        let mut owned: Vec<usize> = Vec::new();
        for i in 0..4 {
            match (&releases[i], allocations[i].action) {
                (Some(run), _) => owned.push(run.slot),
                (None, PoolAction::Finished { slot: Some(slot) }) => owned.push(slot),
                _ => {}
            }
        }
        let count = owned.len();
        owned.sort();
        owned.dedup();
        assert_eq!(owned.len(), count);
        let mut free: Vec<usize> = Vec::new();
        let mut at: usize = unpack(shared.head).1;
        while at < cap {
            assert!(!owned.contains(&at));
            assert_eq!(shared.counts[at], 0);
            free.push(at);
            at = shared.next[at];
        }
        assert_eq!(free.len() + count, cap);
    }
}
