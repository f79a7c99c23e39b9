use shmfeeder::error::{IoFailure, ShmError};
use shmfeeder::heartbeats::HeartbeatMode;
use shmfeeder::producer::{ConnectedMemoryType, Producer, ProducerBuilder};
use shmfeeder::region::ShmRegion;
use shmfeeder::setup::QueueConfig;

#[derive(Debug, Copy, Clone, PartialEq)]
pub struct D {
    a: i64,
    b: i64,
    c: i64,
    d: i64,
}

impl D {
    pub fn new(i: i64) -> Self {
        Self { a: i, b: i + 1, c: i + 2, d: i + 3 }
    }
}

const START: u64 = 1_700_000_000_000_000;

#[test]
fn producer_main() {
    let producer = ProducerBuilder::new("/test-queue", 64);
    if producer.is_err() {
        println!("error during init: {:?}", producer.err());
        panic!("the name is fine");
    }

    let builder = producer.unwrap();
    let mut region: ShmRegion<D> = ShmRegion::zeroed(0x10000, 64, 64);
    let builder = builder
        .with_magic(0x7887_7887)
        .with_version(1)
        .with_liveness_tolerance(10_000_000) // 10 second liveness check
        .with_max_consumers(64)
        .build(&mut region, ConnectedMemoryType::New, 4711, START);

    if builder.is_err() {
        println!("error during build: {:?}", builder.err());
        panic!("the memory is new");
    }

    let mut producer: Producer<D> = builder.unwrap();
    let mut written: usize = 0;
    let mut now: u64 = START;
    for i in 0..9000 {
        let buffer = producer.get_next_buffer(&mut region);
        *buffer = Some(D::new(i));
        written += 1;
        if let Err(ShmError::NoActiveConsumer) = producer.commit_next_slot(&mut region, now) {
            println!("no active consumer, exiting now");
            break;
        }
        println!("wrote: {i}");
        now += 100 * 1_000;
    }

    // Without a consumer the first check, after five seconds, ends the run.
    assert_eq!(written, 52);
    assert_eq!(region.queue.header.last_committed_slot, 51);
    assert_eq!(region.slots[51].seq, 52);
    assert_eq!(region.slots[51].data, Some(D::new(51)));
    assert_eq!(region.slots[52].seq, 0);
    assert_eq!(region.queue.heartbeats.producer.heartbeat.last_update_us, START + 5_100_000);
}

#[test]
fn producer_builder_has_documented_defaults() {
    let builder = ProducerBuilder::new("/prices", 1024).unwrap();
    assert_eq!(builder.name, "/prices");
    assert_eq!(
        builder.config,
        QueueConfig {
            num_slots: 1024,
            magic: 0,
            version: 0,
            liveness_tolerance: 1000,
            max_consumers: 32,
            mode: HeartbeatMode::Full,
        }
    );
    let builder = builder
        .with_magic(0x5449_434b)
        .with_version(3)
        .with_liveness_tolerance(2_000_000)
        .with_max_consumers(8)
        .with_heartbeat_mode(HeartbeatMode::ProducerOnly);
    assert_eq!(
        builder.config,
        QueueConfig {
            num_slots: 1024,
            magic: 0x5449_434b,
            version: 3,
            liveness_tolerance: 2_000_000,
            max_consumers: 8,
            mode: HeartbeatMode::ProducerOnly,
        }
    );
}

#[test]
fn name_with_nul_is_refused() {
    let refused = ProducerBuilder::new("/b\u{e4}d\0name\0", 4);
    assert_eq!(refused.err(), Some(ShmError::Io(IoFailure::InteriorNul(5))));
    assert_eq!(
        ProducerBuilder::new("\0", 4).err(),
        Some(ShmError::Io(IoFailure::InteriorNul(0)))
    );
    assert!(ProducerBuilder::new("", 4).is_ok());
}

fn builder(num_slots: usize) -> ProducerBuilder {
    ProducerBuilder::new("/q", num_slots)
        .unwrap()
        .with_magic(9)
        .with_version(2)
        .with_max_consumers(2)
        .with_liveness_tolerance(100)
}

#[test]
fn length_must_be_a_power_of_two() {
    for bad in [0usize, 3, 6, 12, 1000] {
        let mut region: ShmRegion<u64> = ShmRegion::zeroed(4096, 2, bad);
        let built = builder(bad).build(&mut region, ConnectedMemoryType::New, 1, 1000);
        assert_eq!(built.err(), Some(ShmError::LengthNotPowerOfTwo));
    }
    for good in [1usize, 2, 8, 1024] {
        let mut region: ShmRegion<u64> = ShmRegion::zeroed(4096, 2, good);
        assert!(builder(good).build(&mut region, ConnectedMemoryType::New, 1, 1000).is_ok());
    }
}

#[test]
fn live_owner_is_reported_with_its_pid() {
    let mut region: ShmRegion<u64> = ShmRegion::zeroed(4096, 2, 4);
    let first = builder(4).build(&mut region, ConnectedMemoryType::New, 31, 1000).unwrap();
    assert_eq!(first.mmap_size, 88 + 64 * 4 + 64 + (24 * 2 + 8) - 1);
    let second = builder(4).build(&mut region, ConnectedMemoryType::Old, 32, 1099);
    assert_eq!(second.err(), Some(ShmError::QueueAlreadyAcquired(31)));
    assert_eq!(region.queue.heartbeats.producer.heartbeat.pid, 31);
    first.update_heartbeat(&mut region, 1100);
    let third = builder(4).build(&mut region, ConnectedMemoryType::Old, 33, 1199);
    assert_eq!(third.err(), Some(ShmError::QueueAlreadyAcquired(31)));
    let fourth = builder(4).build(&mut region, ConnectedMemoryType::Old, 34, 1200);
    assert!(fourth.is_ok());
    assert_eq!(region.queue.heartbeats.producer.heartbeat.pid, 34);
}

#[test]
fn takeover_needs_matching_configuration() {
    let late: u64 = 1_000_000;
    let fresh = || {
        let mut region: ShmRegion<u64> = ShmRegion::zeroed(4096, 2, 4);
        let mut producer =
            builder(4).build(&mut region, ConnectedMemoryType::New, 31, 1000).unwrap();
        producer.write(&mut region, 70);
        producer.write(&mut region, 71);
        region
    };
    let mut region = fresh();
    let other = builder(4).with_magic(8).build(&mut region, ConnectedMemoryType::Old, 5, late);
    assert_eq!(other.err(), Some(ShmError::BadMagicNum));
    let other = builder(4).with_version(3).build(&mut region, ConnectedMemoryType::Old, 5, late);
    assert_eq!(other.err(), Some(ShmError::VersionMismatch));
    let other = builder(8).build(&mut region, ConnectedMemoryType::Old, 5, late);
    assert_eq!(other.err(), Some(ShmError::CorruptedQueue));
    let other =
        builder(4).with_max_consumers(3).build(&mut region, ConnectedMemoryType::Old, 5, late);
    assert_eq!(other.err(), Some(ShmError::CorruptedQueue));
    region.queue.header.state = 77;
    let other = builder(4).build(&mut region, ConnectedMemoryType::Old, 5, late);
    assert_eq!(other.err(), Some(ShmError::CorruptedQueue));

    let mut region = fresh();
    let mut taken = builder(4).build(&mut region, ConnectedMemoryType::Old, 5, late).unwrap();
    assert_eq!(region.queue.header.last_committed_slot, 1);
    assert_eq!(region.slots[1].data, Some(71));
    taken.write(&mut region, 72);
    assert_eq!(region.queue.header.last_committed_slot, 2);
    assert_eq!(region.slots[2].data, Some(72));
    assert_eq!(region.slots[2].seq, 3);
    assert_eq!(taken.write_handle.seq, 3);

    let mut region = fresh();
    region.queue.header.state = 3;
    let taken = builder(8).with_magic(1).build(&mut region, ConnectedMemoryType::Old, 6, 1001);
    assert!(taken.is_ok());
    assert_eq!(region.queue.header.magic, 1);
    assert_eq!(region.queue.header.n_slots, 8);
}

#[test]
fn commit_reports_missing_consumers_only_when_due() {
    let mut region: ShmRegion<u64> = ShmRegion::zeroed(4096, 2, 4);
    let mut producer = builder(4).build(&mut region, ConnectedMemoryType::New, 1, 1000).unwrap();
    *producer.get_next_buffer(&mut region) = Some(1);
    assert_eq!(producer.commit_next_slot(&mut region, 1050), Ok(()));
    assert_eq!(region.queue.heartbeats.producer.heartbeat.last_update_us, 1000);
    *producer.get_next_buffer(&mut region) = Some(2);
    assert_eq!(producer.commit_next_slot(&mut region, 900), Ok(()));
    *producer.get_next_buffer(&mut region) = Some(3);
    assert_eq!(
        producer.commit_next_slot(&mut region, 1051),
        Err(ShmError::NoActiveConsumer)
    );
    assert_eq!(region.queue.heartbeats.producer.heartbeat.last_update_us, 1051);
    assert_eq!(producer.last_liveness_check, 1051);
    assert_eq!(region.slots[2].data, Some(3));
    assert_eq!(region.slots[2].seq, 3);
}

#[test]
fn untracked_consumers_are_not_missed() {
    for mode in [HeartbeatMode::ProducerOnly, HeartbeatMode::Disabled] {
        let mut region: ShmRegion<u64> = ShmRegion::zeroed(4096, 0, 4);
        let mut producer = builder(4)
            .with_heartbeat_mode(mode)
            .build(&mut region, ConnectedMemoryType::New, 1, 1000)
            .unwrap();
        *producer.get_next_buffer(&mut region) = Some(1);
        assert_eq!(producer.commit_next_slot(&mut region, 9999), Ok(()));
        let beat = region.queue.heartbeats.producer.heartbeat.last_update_us;
        if mode == HeartbeatMode::Disabled {
            assert_eq!(beat, 0);
            assert_eq!(producer.mmap_size, 48 + 64 * 4 + 64 - 1);
        } else {
            assert_eq!(beat, 9999);
            assert_eq!(producer.mmap_size, 64 + 64 * 4 + 64 - 1);
        }
    }
}

#[test]
fn pending_place_stays_until_commit() {
    let mut region: ShmRegion<u64> = ShmRegion::zeroed(4096, 2, 4);
    let mut producer = builder(4).build(&mut region, ConnectedMemoryType::New, 1, 1000).unwrap();
    *producer.get_next_buffer(&mut region) = Some(1);
    *producer.get_next_buffer(&mut region) = Some(2);
    assert_eq!(region.slots[0].data, Some(2));
    assert_eq!(region.slots[0].seq, 0);
    assert_eq!(producer.commit_next_slot(&mut region, 1000), Ok(()));
    assert_eq!(region.slots[0].seq, 1);
    assert_eq!(region.slots[1].data, None);
}
