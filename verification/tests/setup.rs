use shmfeeder::consumer::mapped_size;
use shmfeeder::error::ShmError;
use shmfeeder::heartbeats::{ConsumerHeartbeatsMeta, HeartbeatMode, ItemHeartbeat};
use shmfeeder::layout::{ShmQueue, ShmState};
use shmfeeder::name::queue_name;
use shmfeeder::region::ShmRegion;
use shmfeeder::setup::{
    check_attach, check_takeover, init_queue_at_ptr, init_stores, QueueConfig, QueueStore,
};

const CONFIG: QueueConfig = QueueConfig {
    num_slots: 8,
    magic: 11,
    version: 22,
    liveness_tolerance: 100,
    max_consumers: 2,
    mode: HeartbeatMode::Full,
};

fn zero() -> ShmQueue {
    ShmRegion::<u64>::zeroed(4096, 2, 8).queue
}

#[test]
fn setup_writes_are_in_order() {
    let stores = init_stores::<u64>(4096, &CONFIG, true, 5, 1000);
    assert_eq!(
        stores,
        vec![
            QueueStore::State(0),
            QueueStore::Magic(11),
            QueueStore::Version(22),
            QueueStore::SlotCount(8),
            QueueStore::LastCommittedSlot(7),
            QueueStore::Consumers(ConsumerHeartbeatsMeta::new(2, 24)),
            QueueStore::QueueOffset(192),
            QueueStore::Producer(ItemHeartbeat { pid: 5, last_update_us: 0 }),
            QueueStore::ProducerBeat(1000),
            QueueStore::State(1),
        ]
    );
    let old = init_stores::<u64>(4096, &CONFIG, false, 5, 1000);
    assert!(!old.contains(&QueueStore::LastCommittedSlot(7)));
    let bare = QueueConfig { mode: HeartbeatMode::Disabled, ..CONFIG };
    assert_eq!(
        init_stores::<u64>(4096, &bare, true, 5, 1000),
        vec![
            QueueStore::State(0),
            QueueStore::Magic(11),
            QueueStore::Version(22),
            QueueStore::SlotCount(8),
            QueueStore::LastCommittedSlot(7),
            QueueStore::QueueOffset(64),
            QueueStore::State(1),
        ]
    );
}

#[test]
fn half_set_up_queue_is_not_ready() {
    let stores = init_stores::<u64>(4096, &CONFIG, true, 5, 1000);
    let mut queue = zero();
    for store in &stores {
        assert_eq!(
            check_attach(&queue, 11, 22, HeartbeatMode::Full, 100, 1000),
            Err(ShmError::QueueNotReady(ShmState::Starting))
        );
        queue.store(*store);
    }
    assert_eq!(check_attach(&queue, 11, 22, HeartbeatMode::Full, 100, 1000), Ok(()));
    let mut whole = zero();
    init_queue_at_ptr::<u64>(&mut whole, 4096, &CONFIG, true, 5, 1000);
    assert_eq!(whole, queue);
}

#[test]
fn half_set_up_queue_can_be_taken_once_its_producer_is_dead() {
    let mut queue = zero();
    init_queue_at_ptr::<u64>(&mut queue, 4096, &CONFIG, true, 5, 1000);
    for code in [0u8, 1, 2] {
        queue.header.state = code;
        assert_eq!(
            check_takeover(&queue, &CONFIG, 1099),
            Err(ShmError::QueueAlreadyAcquired(5))
        );
        assert_eq!(check_takeover(&queue, &CONFIG, 1100), Ok(()));
        let blind = QueueConfig { mode: HeartbeatMode::Disabled, ..CONFIG };
        assert_eq!(check_takeover(&queue, &blind, 1000), Ok(()));
    }
    queue.header.state = 3;
    let other = QueueConfig { magic: 1, version: 1, num_slots: 1, ..CONFIG };
    assert_eq!(check_takeover(&queue, &other, 1000), Ok(()));
    queue.header.state = 4;
    assert_eq!(check_takeover(&queue, &CONFIG, 1100), Err(ShmError::CorruptedQueue));
}

#[test]
fn mapped_size_counts_to_the_last_slot() {
    let mut queue = zero();
    init_queue_at_ptr::<u64>(&mut queue, 4096, &CONFIG, true, 5, 1000);
    assert_eq!(mapped_size::<u64>(&queue.header), Some(192 + 8 * 64));
    queue.header.n_slots = usize::MAX;
    assert_eq!(mapped_size::<u64>(&queue.header), None);
}

#[test]
fn names_without_nul_are_kept() {
    assert_eq!(queue_name("/pr\u{20ac}ise"), Ok("/pr\u{20ac}ise".to_string()));
    assert!(queue_name("/pr\u{20ac}\0").is_err());
}

#[test]
fn cleared_region_is_zero() {
    let mut region: ShmRegion<u64> = ShmRegion::zeroed(4096, 2, 8);
    init_queue_at_ptr::<u64>(&mut region.queue, 4096, &CONFIG, true, 5, 1000);
    region.slots[3].seq = 9;
    region.slots[3].data = Some(4);
    region.consumers[1].sequence = 3;
    region.clear();
    assert_eq!(region.queue, zero());
    assert_eq!(region.slots.len(), 8);
    assert_eq!((region.slots[3].seq, region.slots[3].data), (0, None));
    assert_eq!(region.consumers[1].sequence, 0);
    assert_eq!(region.base, 4096);
}
