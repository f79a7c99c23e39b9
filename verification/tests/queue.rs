use shmfeeder::error::ShmError;
use shmfeeder::queue::{
    BroadCastQueue, BroadcastReadHandle, BroadcastWriteHandle, Publication, Slot,
};
use std::rc::Rc;

fn ring(n: usize) -> Vec<Slot<u64>> {
    (0..n).map(|_| Slot { seq: 0, data: None }).collect()
}

fn queue(n: usize) -> BroadCastQueue<u64> {
    BroadCastQueue::from_raw_parts(640, 64 * n).unwrap()
}

#[test]
fn ring_needs_aligned_power_of_two() {
    assert_eq!(
        BroadCastQueue::<u64>::from_raw_parts(641, 64).err(),
        Some(ShmError::UnalignedPtr)
    );
    assert_eq!(
        BroadCastQueue::<u64>::from_raw_parts(640, 63).err(),
        Some(ShmError::LengthNotPowerOfTwo)
    );
    assert_eq!(
        BroadCastQueue::<u64>::from_raw_parts(640, 64 * 3).err(),
        Some(ShmError::LengthNotPowerOfTwo)
    );
    let queue = BroadCastQueue::<u64>::from_raw_parts(640, 64 * 4 + 63).unwrap();
    assert_eq!(queue.buf, 640);
    assert_eq!(queue.len_mask, 3);
}

#[test]
fn indices_go_round() {
    let queue = queue(4);
    assert_eq!(queue.next_index(0), 1);
    assert_eq!(queue.next_index(3), 0);
    assert_eq!(queue.next_index(usize::MAX), 0);
    assert_eq!(queue.next_index(6), 3);
}

#[test]
fn reader_starts_at_the_newest_slot() {
    assert_eq!(BroadcastReadHandle::new(queue(4), usize::MAX, 0).cursor, 0);
    assert_eq!(BroadcastReadHandle::new(queue(4), 2, 7).cursor, 2);
    assert_eq!(BroadcastReadHandle::new(queue(4), 3, 0).cursor, 0);
    assert_eq!(BroadcastReadHandle::new(queue(4), 1, 0).cursor, 2);
    assert!(BroadcastReadHandle::new(queue(4), 3, 4).is_in_ring());
    assert!(BroadcastReadHandle::new(queue(4), 4, 0).is_in_ring());
    assert!(!BroadcastReadHandle::new(queue(4), 4, 5).is_in_ring());
}

#[test]
fn items_are_read_in_order() {
    let mut slots = ring(4);
    let mut last: usize = 3;
    let mut writer = BroadcastWriteHandle::new(queue(4));
    let mut reader: Option<BroadcastReadHandle<u64>> = None;
    for item in 1..=50u64 {
        *writer.get_next_buffer(last, &mut slots) = Some(item * 10);
        writer.commit_next_slot(&mut last, &mut slots);
        assert_eq!(last as u64, (item - 1) % 4);
        assert_eq!(slots[last].seq as u64, item);
        let seq = slots[last].seq;
        let reader = reader.get_or_insert_with(|| BroadcastReadHandle::new(queue(4), last, seq));
        if item % 4 == 1 {
            let behind = if item == 1 { 1 } else { 4 };
            for back in (0..behind).rev() {
                assert_eq!(reader.try_read(&slots), Some(&((item - back) * 10)));
            }
            assert_eq!(reader.try_read(&slots), None);
        }
    }
}

#[test]
fn joining_between_the_two_writes_misses_nothing() {
    let mut slots = ring(4);
    let mut last: usize = 3;
    let mut writer = BroadcastWriteHandle::new(queue(4));
    for item in 1..=2u64 {
        *writer.get_next_buffer(last, &mut slots) = Some(item);
        writer.commit_next_slot(&mut last, &mut slots);
    }
    *writer.get_next_buffer(last, &mut slots) = Some(3);
    let publication = writer.publication(last);
    assert_eq!(publication, Publication { index: 2, seq: 3 });
    slots[publication.index].seq = publication.seq;
    let mut reader = BroadcastReadHandle::new(queue(4), last, slots[last].seq);
    assert_eq!(reader.try_read(&slots), Some(&2));
    assert_eq!(reader.try_read(&slots), Some(&3));
    assert_eq!(reader.try_read(&slots), None);
}

#[test]
fn reader_of_an_unmarked_ring_reads_from_the_start() {
    let mut slots = ring(4);
    let mut last: usize = usize::MAX;
    let mut reader = BroadcastReadHandle::new(queue(4), last, 0);
    let mut writer = BroadcastWriteHandle::new(queue(4));
    for item in 1..=3u64 {
        *writer.get_next_buffer(last, &mut slots) = Some(item);
        writer.commit_next_slot(&mut last, &mut slots);
    }
    assert_eq!(last, 2);
    for item in 1..=3u64 {
        assert_eq!(reader.try_read(&slots), Some(&item));
    }
    assert_eq!(reader.try_read(&slots), None);
}

#[test]
fn numbers_start_over() {
    let mut slots = ring(2);
    let mut last: usize = 1;
    let mut writer = BroadcastWriteHandle::new(queue(2));
    writer.seq = usize::MAX;
    *writer.get_next_buffer(last, &mut slots) = Some(1);
    writer.commit_next_slot(&mut last, &mut slots);
    assert_eq!(slots[0].seq, 0);
    assert_eq!(writer.seq, 0);
}

#[test]
fn item_a_round_behind_is_dropped() {
    let mut writer = BroadcastWriteHandle::<u64>::continuing(queue(4), 9);
    assert!(writer.reserve(6));
    assert!(writer.reserved);
    assert!(!writer.reserve(6));
    for (seq, slot_seq, drops) in [
        (9, 5, false),
        (9, 9, false),
        (9, 10, false),
        (3, 0, false),
        (4, 1, true),
        (1, usize::MAX - 1, true),
    ] {
        let mut writer = BroadcastWriteHandle::<u64>::continuing(queue(4), seq);
        assert_eq!(writer.reserve(slot_seq), drops);
    }
}

#[test]
fn overwritten_element_is_dropped_once() {
    let ring = BroadCastQueue::<Rc<u8>>::from_raw_parts(640, 64 * 2).unwrap();
    let mut slots: Vec<Slot<Rc<u8>>> = (0..2).map(|_| Slot { seq: 0, data: None }).collect();
    let mut last: usize = 1;
    let mut writer = BroadcastWriteHandle::new(ring);
    let (a, b, c) = (Rc::new(1), Rc::new(2), Rc::new(3));
    for element in [&a, &b] {
        let place = writer.get_next_buffer(last, &mut slots);
        assert!(place.is_none());
        *place = Some(element.clone());
        writer.commit_next_slot(&mut last, &mut slots);
    }
    assert_eq!((Rc::strong_count(&a), Rc::strong_count(&b)), (2, 2));
    let place = writer.get_next_buffer(last, &mut slots);
    assert!(place.is_none());
    *place = Some(c.clone());
    assert_eq!((Rc::strong_count(&a), Rc::strong_count(&b)), (1, 2));
    assert_eq!(slots[0].seq, 1);
    // The place was handed out, so what it holds now stays.
    assert_eq!(*writer.get_next_buffer(last, &mut slots), Some(c.clone()));
    writer.commit_next_slot(&mut last, &mut slots);
    assert_eq!((last, slots[0].seq), (0, 3));
    assert!(writer.get_next_buffer(last, &mut slots).is_none());
    assert_eq!(Rc::strong_count(&b), 1);
    assert_eq!(Rc::strong_count(&c), 2);
}

#[test]
fn reading_goes_on_while_the_next_place_is_out() {
    let mut slots = ring(2);
    let mut last: usize = 1;
    let mut reader = BroadcastReadHandle::new(queue(2), last, 0);
    let mut writer = BroadcastWriteHandle::new(queue(2));
    for item in 1..=2u64 {
        *writer.get_next_buffer(last, &mut slots) = Some(item);
        writer.commit_next_slot(&mut last, &mut slots);
    }
    assert_eq!(reader.try_read(&slots), Some(&1));
    assert_eq!(*writer.get_next_buffer(last, &mut slots), None);
    assert_eq!(reader.try_read(&slots), Some(&2));
    assert_eq!(reader.try_read(&slots), None);
}

#[test]
fn observing_moves_only_forward() {
    let mut reader = BroadcastReadHandle::new(queue(4), 3, 4);
    assert!(!reader.observe(0));
    assert!(reader.observe(8));
    assert_eq!((reader.seq, reader.cursor), (8, 0));
    assert!(!reader.observe(8));
    assert!(!reader.observe(5));
    assert!(reader.observe(9));
    assert_eq!((reader.seq, reader.cursor), (9, 1));
}
