use shmfeeder::consumer::{Consumer, ConsumerBuilder};
use shmfeeder::error::{IoFailure, ShmError};
use shmfeeder::heartbeats::HeartbeatMode;
use shmfeeder::layout::ShmState;
use shmfeeder::producer::{ConnectedMemoryType, Producer, ProducerBuilder};
use shmfeeder::region::ShmRegion;

#[derive(Debug, Copy, Clone, PartialEq)]
pub struct D {
    a: i64,
    b: i64,
    c: i64,
    d: i64,
}

impl D {
    pub fn new(i: i64) -> Self {
        Self { a: i, b: i + 1, c: i + 2, d: i + 3 }
    }
}

const START: u64 = 1_700_000_000_000_000;

#[test]
fn consumer_main() {
    let mut region: ShmRegion<D> = ShmRegion::zeroed(0x10000, 64, 64);
    let mut producer: Producer<D> = ProducerBuilder::new("/test-queue", 64)
        .unwrap()
        .with_magic(0x7887_7887)
        .with_version(1)
        .with_liveness_tolerance(10_000_000)
        .with_max_consumers(64)
        .build(&mut region, ConnectedMemoryType::New, 4711, START)
        .unwrap();

    let consumer = ConsumerBuilder::new("/test-queue");
    if consumer.is_err() {
        println!("error during init: {:?}", consumer.err());
        panic!("the name is fine");
    }

    let mut now: u64 = START + 1;
    let builder = consumer.unwrap();
    let builder = builder
        .with_magic(0x7887_7887)
        .with_version(1)
        .with_liveness_tolerance(10_000_000) // 10 seconds liveness tolerance
        .build(&mut region, 4712, now);

    if builder.is_err() {
        println!("error during build: {:?}", builder.err());
        panic!("the producer is alive");
    }

    let mut consumer: Consumer<D> = builder.unwrap();
    let mut next: i64 = 0;
    let mut published: i64 = 0;
    loop {
        match consumer.try_read(&mut region, now) {
            Ok(r) => {
                println!("read: {r:?}");
                assert_eq!(*r, D::new(next));
                next += 1;
            }
            Err(ShmError::NoActiveProducer) => {
                println!("consumer exiting due to no data");
                break;
            }
            Err(ShmError::NoData) => {
                // The producer publishes for a while, then goes silent.
                if published < 200 {
                    *producer.get_next_buffer(&mut region) = Some(D::new(published));
                    assert_eq!(producer.commit_next_slot(&mut region, now), Ok(()));
                    published += 1;
                }
                now += 100_000;
            }
            Err(err) => {
                panic!("unexpected error: {err:?}");
            }
        }
    }
    assert_eq!(next, 200);
    let last_beat = region.queue.heartbeats.producer.heartbeat.last_update_us;
    assert!(now >= last_beat + 10_000_000);
}

fn producer(region: &mut ShmRegion<u64>, mode: HeartbeatMode) -> Producer<u64> {
    ProducerBuilder::new("/q", 4)
        .unwrap()
        .with_magic(9)
        .with_version(2)
        .with_max_consumers(2)
        .with_liveness_tolerance(100)
        .with_heartbeat_mode(mode)
        .build(region, ConnectedMemoryType::New, 31, 1000)
        .unwrap()
}

fn builder() -> ConsumerBuilder {
    ConsumerBuilder::new("/q").unwrap().with_magic(9).with_version(2).with_liveness_tolerance(100)
}

#[test]
fn consumer_builder_has_documented_defaults() {
    let builder = ConsumerBuilder::new("/prices").unwrap();
    assert_eq!(builder.name, "/prices");
    assert_eq!(builder.magic, 0);
    assert_eq!(builder.version, 0);
    assert_eq!(builder.liveness_tolerance, 1000);
    assert_eq!(builder.mode, HeartbeatMode::Full);
    assert_eq!(
        ConsumerBuilder::new("a\0").err(),
        Some(ShmError::Io(IoFailure::InteriorNul(1)))
    );
}

#[test]
fn attaching_is_checked() {
    let mut region: ShmRegion<u64> = ShmRegion::zeroed(4096, 2, 4);
    assert_eq!(
        builder().build(&mut region, 7, 1000).err(),
        Some(ShmError::QueueNotReady(ShmState::Starting))
    );
    let _producer = producer(&mut region, HeartbeatMode::Full);
    assert_eq!(
        builder().build(&mut region, 7, 1100).err(),
        Some(ShmError::NoActiveProducer)
    );
    assert_eq!(
        builder().with_magic(1).build(&mut region, 7, 1001).err(),
        Some(ShmError::BadMagicNum)
    );
    assert_eq!(
        builder().with_version(1).build(&mut region, 7, 1001).err(),
        Some(ShmError::VersionMismatch)
    );
    for (code, state) in [(2u8, ShmState::ShuttingDown), (3, ShmState::Uninit)] {
        region.queue.header.state = code;
        assert_eq!(
            builder().build(&mut region, 7, 1001).err(),
            Some(ShmError::QueueNotReady(state))
        );
    }
    region.queue.header.state = 200;
    assert_eq!(
        builder().build(&mut region, 7, 1001).err(),
        Some(ShmError::CorruptedQueue)
    );
    region.queue.header.state = 1;
    assert!(builder().build(&mut region, 7, 1001).is_ok());
}

#[test]
fn garbage_header_is_refused_before_its_sizes_count() {
    let mut region: ShmRegion<u64> = ShmRegion::zeroed(4096, 2, 4);
    let _producer = producer(&mut region, HeartbeatMode::Full);
    region.queue.header.n_slots = usize::MAX;
    region.queue.header.queue_offset = usize::MAX;
    region.queue.heartbeats.consumers.max_consumers = usize::MAX;
    region.queue.header.state = 99;
    assert_eq!(
        builder().build(&mut region, 7, 1001).err(),
        Some(ShmError::CorruptedQueue)
    );
    region.queue.header.state = 2;
    assert_eq!(
        builder().build(&mut region, 7, 1001).err(),
        Some(ShmError::QueueNotReady(ShmState::ShuttingDown))
    );
}

#[test]
fn damaged_ring_is_refused() {
    let mut region: ShmRegion<u64> = ShmRegion::zeroed(4096, 2, 4);
    let _producer = producer(&mut region, HeartbeatMode::Full);
    region.queue.header.queue_offset += 8;
    assert_eq!(
        builder().build(&mut region, 7, 1001).err(),
        Some(ShmError::UnalignedPtr)
    );
    region.queue.header.queue_offset -= 8;
    region.queue.header.n_slots = 3;
    assert_eq!(
        builder().build(&mut region, 8, 1001).err(),
        Some(ShmError::LengthNotPowerOfTwo)
    );
}

#[test]
fn consumers_are_limited_and_records_reused() {
    let mut region: ShmRegion<u64> = ShmRegion::zeroed(4096, 2, 4);
    let producer = producer(&mut region, HeartbeatMode::Full);
    let first = builder().build(&mut region, 7, 1001).unwrap();
    let second = builder().build(&mut region, 8, 1002).unwrap();
    assert_eq!((first.id, second.id), (0, 1));
    assert_eq!(region.consumers[1].heartbeat.pid, 8);
    assert_eq!(
        builder().build(&mut region, 9, 1003).err(),
        Some(ShmError::MaxConsumerLimitReached)
    );
    assert_eq!(producer.check_any_consumer_alive(&mut region, 1003), Ok(()));
    first.drop(&mut region);
    let third = builder().build(&mut region, 10, 1004).unwrap();
    assert_eq!(third.id, 0);
    assert_eq!(region.consumers[0].sequence, 2);
    second.drop(&mut region);
    third.drop(&mut region);
    assert_eq!(
        producer.check_any_consumer_alive(&mut region, 1005),
        Err(ShmError::NoActiveConsumer)
    );
}

#[test]
fn late_consumer_reads_newest_then_follows() {
    let mut region: ShmRegion<u64> = ShmRegion::zeroed(4096, 2, 4);
    let mut producer = producer(&mut region, HeartbeatMode::Full);
    for item in 1..=6 {
        producer.write(&mut region, item);
    }
    let mut consumer = builder().build(&mut region, 7, 1001).unwrap();
    assert_eq!(consumer.try_read(&mut region, 1001), Ok(&6));
    assert_eq!(consumer.try_read(&mut region, 1001), Err(ShmError::NoData));
    for item in 7..=10 {
        producer.write(&mut region, item);
    }
    for item in 7..=10 {
        assert_eq!(consumer.try_read_zero_copy(&region), Ok(&item));
    }
    assert_eq!(consumer.try_read_zero_copy(&region), Err(ShmError::NoData));
}

#[test]
fn slow_consumer_misses_overwritten_items() {
    let mut region: ShmRegion<u64> = ShmRegion::zeroed(4096, 2, 4);
    let mut producer = producer(&mut region, HeartbeatMode::Full);
    producer.write(&mut region, 1);
    let mut consumer = builder().build(&mut region, 7, 1001).unwrap();
    assert_eq!(consumer.try_read_zero_copy(&region), Ok(&1));
    for item in 2..=7 {
        producer.write(&mut region, item);
    }
    // Item 2 is gone; its slot holds item 6.
    assert_eq!(consumer.try_read_zero_copy(&region), Ok(&6));
    assert_eq!(consumer.try_read_zero_copy(&region), Ok(&7));
    assert_eq!(consumer.try_read_zero_copy(&region), Err(ShmError::NoData));
}

#[test]
fn consumer_of_a_fresh_queue_reads_from_the_start() {
    let mut region: ShmRegion<u64> = ShmRegion::zeroed(4096, 32, 4);
    let mut producer = ProducerBuilder::new("/q", 4)
        .unwrap()
        .build(&mut region, ConnectedMemoryType::New, 31, 10_000)
        .unwrap();
    let mut consumer: Consumer<u64> =
        ConsumerBuilder::new("/q").unwrap().build(&mut region, 32, 10_000).unwrap();
    assert_eq!(consumer.try_read(&mut region, 10_000), Err(ShmError::NoData));
    *producer.get_next_buffer(&mut region) = Some(7);
    assert_eq!(producer.commit_next_slot(&mut region, 10_000), Ok(()));
    assert_eq!(consumer.try_read(&mut region, 10_000), Ok(&7));
    assert_eq!(consumer.try_read(&mut region, 10_000), Err(ShmError::NoData));
    for item in 8..=11 {
        producer.write(&mut region, item);
    }
    for item in 8..=11 {
        assert_eq!(consumer.try_read_zero_copy(&region), Ok(&item));
    }
}

#[test]
fn stream_goes_on_across_a_takeover() {
    let mut region: ShmRegion<u64> = ShmRegion::zeroed(4096, 2, 4);
    let mut first = producer(&mut region, HeartbeatMode::Full);
    let mut attached = builder().build(&mut region, 7, 1001).unwrap();
    first.write(&mut region, 10);
    first.write(&mut region, 20);
    assert_eq!(attached.try_read_zero_copy(&region), Ok(&10));
    assert_eq!(attached.try_read_zero_copy(&region), Ok(&20));
    let mut second = ProducerBuilder::new("/q", 4)
        .unwrap()
        .with_magic(9)
        .with_version(2)
        .with_max_consumers(2)
        .with_liveness_tolerance(100)
        .build(&mut region, ConnectedMemoryType::Old, 33, 1200)
        .unwrap();
    assert_eq!(attached.try_read_zero_copy(&region), Err(ShmError::NoData));
    second.write(&mut region, 30);
    assert_eq!(attached.try_read_zero_copy(&region), Ok(&30));
    let mut joining = builder().build(&mut region, 8, 1201).unwrap();
    assert_eq!(joining.try_read_zero_copy(&region), Ok(&30));
    assert_eq!(joining.try_read_zero_copy(&region), Err(ShmError::NoData));
    second.write(&mut region, 40);
    assert_eq!(joining.try_read_zero_copy(&region), Ok(&40));
    assert_eq!(attached.try_read_zero_copy(&region), Ok(&40));
}

#[test]
fn takeover_keeps_live_consumers_known() {
    let mut region: ShmRegion<u64> = ShmRegion::zeroed(4096, 2, 4);
    let _first = producer(&mut region, HeartbeatMode::Full);
    let consumer: Consumer<u64> = builder().build(&mut region, 7, 1001).unwrap();
    let mut second = ProducerBuilder::new("/q", 4)
        .unwrap()
        .with_magic(9)
        .with_version(2)
        .with_max_consumers(2)
        .with_liveness_tolerance(100)
        .build(&mut region, ConnectedMemoryType::Old, 33, 1200)
        .unwrap();
    consumer.update_heartbeat(&mut region, 1210);
    *second.get_next_buffer(&mut region) = Some(1);
    assert_eq!(second.commit_next_slot(&mut region, 1260), Ok(()));
    *second.get_next_buffer(&mut region) = Some(2);
    assert_eq!(
        second.commit_next_slot(&mut region, 1320),
        Err(ShmError::NoActiveConsumer)
    );
    // Also after a check that has found nobody.
    consumer.update_heartbeat(&mut region, 1330);
    *second.get_next_buffer(&mut region) = Some(3);
    assert_eq!(second.commit_next_slot(&mut region, 1380), Ok(()));
}

#[test]
fn reading_keeps_heartbeats_when_due() {
    let mut region: ShmRegion<u64> = ShmRegion::zeroed(4096, 2, 4);
    let producer = producer(&mut region, HeartbeatMode::Full);
    let mut consumer = builder().build(&mut region, 7, 1001).unwrap();
    assert_eq!(consumer.try_read(&mut region, 1051), Err(ShmError::NoData));
    assert_eq!(region.consumers[0].heartbeat.last_update_us, 1001);
    assert_eq!(consumer.try_read(&mut region, 1052), Err(ShmError::NoData));
    assert_eq!(region.consumers[0].heartbeat.last_update_us, 1052);
    assert_eq!(consumer.check_producer_alive(&region, 1099), Ok(()));
    assert_eq!(
        consumer.check_producer_alive(&region, 1100),
        Err(ShmError::NoActiveProducer)
    );
    assert_eq!(
        consumer.try_read(&mut region, 1103),
        Err(ShmError::NoActiveProducer)
    );
    assert_eq!(region.consumers[0].heartbeat.last_update_us, 1052);
    producer.update_heartbeat(&mut region, 1103);
    consumer.update_heartbeat(&mut region, 1104);
    assert_eq!(region.consumers[0].heartbeat.last_update_us, 1104);
    assert_eq!(consumer.try_read(&mut region, 1104), Err(ShmError::NoData));
}

#[test]
fn writing_leaves_heartbeats_alone() {
    let mut region: ShmRegion<u64> = ShmRegion::zeroed(4096, 2, 4);
    let mut producer = producer(&mut region, HeartbeatMode::Full);
    let _consumer = builder().build(&mut region, 7, 1001).unwrap();
    let heartbeats = region.queue.heartbeats;
    let records = region.consumers.clone();
    for item in 0..9 {
        producer.write(&mut region, item);
    }
    assert_eq!(region.queue.heartbeats, heartbeats);
    assert_eq!(region.consumers, records);
}

#[test]
fn beating_consumer_is_found_by_the_producer() {
    let mut region: ShmRegion<u64> = ShmRegion::zeroed(4096, 2, 4);
    let producer = producer(&mut region, HeartbeatMode::Full);
    let consumer = builder().build(&mut region, 7, 1001).unwrap();
    consumer.update_heartbeat(&mut region, 1500);
    assert_eq!(producer.check_any_consumer_alive(&mut region, 1599), Ok(()));
    assert_eq!(
        producer.check_any_consumer_alive(&mut region, 1600),
        Err(ShmError::NoActiveConsumer)
    );
}

#[test]
fn untracked_consumers_have_no_limit() {
    let mut region: ShmRegion<u64> = ShmRegion::zeroed(4096, 0, 4);
    let mut producer = producer(&mut region, HeartbeatMode::Disabled);
    producer.write(&mut region, 5);
    for pid in 0..5 {
        let mut consumer = builder()
            .with_heartbeat_mode(HeartbeatMode::Disabled)
            .build(&mut region, pid, 0)
            .unwrap();
        assert_eq!(consumer.id, 0);
        assert_eq!(consumer.try_read(&mut region, 0), Ok(&5));
    }
}
