use shmfeeder::connect::{
    ConsumerConnect, ConsumerStep, ProducerConnect, ProducerStep, SystemReply,
};
use shmfeeder::consumer::ConsumerBuilder;
use shmfeeder::error::{IoFailure, ShmError};
use shmfeeder::heartbeats::HeartbeatMode;
use shmfeeder::layout::{queue_size, ShmQueue, ShmState};
use shmfeeder::producer::ConnectedMemoryType;
use shmfeeder::region::ShmRegion;
use shmfeeder::setup::{init_queue_at_ptr, QueueConfig};

const CONFIG: QueueConfig = QueueConfig {
    num_slots: 8,
    magic: 11,
    version: 22,
    liveness_tolerance: 100,
    max_consumers: 2,
    mode: HeartbeatMode::Full,
};

const SIZE: usize = 88 + 8 * 64 + 64 + (2 * 24 + 8) - 1;

fn head() -> ShmQueue {
    let mut queue = ShmRegion::<u64>::zeroed(4096, 2, 8).queue;
    init_queue_at_ptr::<u64>(&mut queue, 4096, &CONFIG, true, 5, 1000);
    queue
}

fn producer() -> ProducerConnect<u64> {
    ProducerConnect::new(CONFIG, 1050).unwrap()
}

fn run(connect: &mut ProducerConnect<u64>, replies: &[SystemReply]) -> Vec<ProducerStep> {
    let mut steps = vec![connect.step];
    for reply in replies {
        connect.resume(*reply);
        steps.push(connect.step);
    }
    steps
}

#[test]
fn producer_creates_a_new_object() {
    let mut connect = producer();
    let steps = run(
        &mut connect,
        &[
            SystemReply::Descriptor(3),
            SystemReply::Done,
            SystemReply::Mapped(8192),
            SystemReply::Done,
            SystemReply::Done,
            SystemReply::Number(0),
        ],
    );
    assert_eq!(
        steps,
        vec![
            ProducerStep::Create,
            ProducerStep::Resize { fd: 3, size: SIZE },
            ProducerStep::MapObject { fd: 3, size: SIZE, memory: ConnectedMemoryType::New },
            ProducerStep::Clear { fd: 3, base: 8192, size: SIZE },
            ProducerStep::Initialise { fd: 3, base: 8192, memory: ConnectedMemoryType::New },
            ProducerStep::ReadMark { fd: 3, base: 8192 },
            ProducerStep::Connected { fd: 3, base: 8192, seq: 0 },
        ]
    );
    let producer = connect.finish(8192, 0).unwrap();
    assert_eq!(producer.mmap_size, SIZE);
    assert_eq!(producer.last_liveness_check, 1050);
    assert_eq!(producer.liveness_check_periods, 50);
    assert_eq!(producer.write_handle.queue.buf, 8192 + 192);
    assert_eq!(producer.write_handle.queue.len_mask, 7);
    assert_eq!(producer.write_handle.seq, 0);
}

#[test]
fn producer_takes_over_a_dead_queue_only() {
    let start = [
        SystemReply::Refused,
        SystemReply::Error { code: 17, already_exists: true },
        SystemReply::Descriptor(4),
        SystemReply::Mapped(8192),
    ];
    let mut connect = producer();
    let steps = run(&mut connect, &start);
    assert_eq!(
        steps,
        vec![
            ProducerStep::Create,
            ProducerStep::CreateError,
            ProducerStep::OpenExisting,
            ProducerStep::MapObject { fd: 4, size: SIZE, memory: ConnectedMemoryType::Old },
            ProducerStep::Inspect { fd: 4, base: 8192 },
        ]
    );
    connect.resume(SystemReply::Head(head()));
    assert_eq!(
        connect.step,
        ProducerStep::Failed { error: ShmError::QueueAlreadyAcquired(5) }
    );

    let mut connect = producer();
    connect.now = 1100;
    run(&mut connect, &start);
    connect.resume(SystemReply::Head(head()));
    assert_eq!(
        connect.step,
        ProducerStep::Initialise { fd: 4, base: 8192, memory: ConnectedMemoryType::Old }
    );
    connect.resume(SystemReply::Done);
    connect.resume(SystemReply::Number(41));
    assert_eq!(connect.step, ProducerStep::Connected { fd: 4, base: 8192, seq: 41 });
    assert_eq!(connect.finish(8192, 41).unwrap().write_handle.seq, 41);
}

#[test]
fn failed_producer_cleans_up() {
    let mut connect = producer();
    run(&mut connect, &[SystemReply::Refused]);
    connect.resume(SystemReply::Error { code: 13, already_exists: false });
    assert_eq!(
        connect.step,
        ProducerStep::Failed { error: ShmError::Io(IoFailure::Os(13)) }
    );

    let mut connect = producer();
    let steps = run(
        &mut connect,
        &[
            SystemReply::Descriptor(3),
            SystemReply::Refused,
            SystemReply::Done,
            SystemReply::Done,
            SystemReply::Error { code: 28, already_exists: false },
        ],
    );
    assert_eq!(
        steps[2..],
        [
            ProducerStep::Close { fd: 3, unlink: true },
            ProducerStep::Unlink,
            ProducerStep::LastError,
            ProducerStep::Failed { error: ShmError::Io(IoFailure::Os(28)) },
        ]
    );

    for (memory, unlink) in [(ConnectedMemoryType::New, true), (ConnectedMemoryType::Old, false)] {
        let mut connect = producer();
        connect.step = ProducerStep::MapObject { fd: 3, size: SIZE, memory };
        connect.resume(SystemReply::Refused);
        assert_eq!(connect.step, ProducerStep::Close { fd: 3, unlink });
        connect.resume(SystemReply::Done);
        let next = if unlink { ProducerStep::Unlink } else { ProducerStep::LastError };
        assert_eq!(connect.step, next);
    }

    let mut connect = producer();
    connect.step = ProducerStep::OpenExisting;
    connect.resume(SystemReply::Refused);
    assert_eq!(connect.step, ProducerStep::LastError);
}

#[test]
fn producer_without_slots_is_refused_in_the_end() {
    let config = QueueConfig { num_slots: 0, ..CONFIG };
    let connect = ProducerConnect::<u64>::new(config, 0).unwrap();
    assert_eq!(connect.finish(4096, 0).err(), Some(ShmError::LengthNotPowerOfTwo));
    let config = QueueConfig { num_slots: usize::MAX, ..CONFIG };
    assert!(ProducerConnect::<u64>::new(config, 0).is_none());
}

fn builder(mode: HeartbeatMode) -> ConsumerBuilder {
    ConsumerBuilder::new("/q")
        .unwrap()
        .with_magic(11)
        .with_version(22)
        .with_liveness_tolerance(100)
        .with_heartbeat_mode(mode)
}

fn consumer(mode: HeartbeatMode) -> ConsumerConnect<u64> {
    ConsumerConnect::new(builder(mode), 1050)
}

#[test]
fn consumer_attaches() {
    let mut connect = consumer(HeartbeatMode::Full);
    let size: usize = 192 + 8 * 64;
    let replies = [
        SystemReply::Descriptor(3),
        SystemReply::Mapped(4096),
        SystemReply::Head(head()),
        SystemReply::Claimed(Some(1)),
        SystemReply::Done,
        SystemReply::Mapped(8192),
        SystemReply::Head(head()),
        SystemReply::Number(0),
    ];
    let mut steps = vec![connect.step];
    for reply in replies {
        connect.resume(reply);
        steps.push(connect.step);
    }
    assert_eq!(
        steps,
        vec![
            ConsumerStep::Open,
            ConsumerStep::MapHead { fd: 3, size: 88 },
            ConsumerStep::Inspect { fd: 3, base: 4096 },
            ConsumerStep::Claim { fd: 3, base: 4096, head: head() },
            ConsumerStep::Unmap { fd: 3, base: 4096, head_size: 88, size, id: 1 },
            ConsumerStep::MapQueue { fd: 3, size, id: 1 },
            ConsumerStep::Reread { fd: 3, base: 8192, size, id: 1 },
            ConsumerStep::ReadMark { fd: 3, base: 8192, size, id: 1, head: head() },
            ConsumerStep::Connected { fd: 3, base: 8192, id: 1, head: head(), last_seq: 0 },
        ]
    );
    let consumer = connect.finish(8192, 1, &head(), 0).unwrap();
    assert_eq!(consumer.mmap_size, size);
    assert_eq!(consumer.id, 1);
    assert_eq!(consumer.read_handle.cursor, 0);
    let late = connect.finish(8192, 1, &head(), 16).unwrap();
    assert_eq!(late.read_handle.cursor, 7);
    assert_eq!(consumer.read_handle.queue.buf, 8192 + 192);
    assert_eq!(connect.finish(8193, 1, &head(), 0).err(), Some(ShmError::UnalignedPtr));
    let mut odd = head();
    odd.header.n_slots = 6;
    assert_eq!(connect.finish(8192, 1, &odd, 0).err(), Some(ShmError::LengthNotPowerOfTwo));
}

#[test]
fn untracked_consumer_claims_nothing() {
    for mode in [HeartbeatMode::ProducerOnly, HeartbeatMode::Disabled] {
        let mut connect = consumer(mode);
        connect.step = ConsumerStep::Inspect { fd: 3, base: 4096 };
        connect.resume(SystemReply::Head(head()));
        let head_size = queue_size(mode);
        assert_eq!(
            connect.step,
            ConsumerStep::Unmap { fd: 3, base: 4096, head_size, size: 704, id: 0 }
        );
    }
}

#[test]
fn consumer_fails_with_the_reason() {
    let mut connect = consumer(HeartbeatMode::Full);
    connect.resume(SystemReply::Refused);
    assert_eq!(connect.step, ConsumerStep::LastError);
    connect.resume(SystemReply::Error { code: 2, already_exists: false });
    assert_eq!(
        connect.step,
        ConsumerStep::Failed { error: ShmError::Io(IoFailure::Os(2)) }
    );

    let mut starting = head();
    starting.header.state = 0;
    connect.step = ConsumerStep::Inspect { fd: 3, base: 4096 };
    connect.resume(SystemReply::Head(starting));
    assert_eq!(
        connect.step,
        ConsumerStep::Failed { error: ShmError::QueueNotReady(ShmState::Starting) }
    );

    let mut huge = head();
    huge.header.n_slots = usize::MAX;
    connect.step = ConsumerStep::Claim { fd: 3, base: 4096, head: huge };
    connect.resume(SystemReply::Claimed(Some(0)));
    assert_eq!(connect.step, ConsumerStep::SizeOverflow);

    connect.step = ConsumerStep::Claim { fd: 3, base: 4096, head: head() };
    connect.resume(SystemReply::Claimed(None));
    assert_eq!(
        connect.step,
        ConsumerStep::Failed { error: ShmError::MaxConsumerLimitReached }
    );
}

#[test]
fn failed_consumer_cleans_up() {
    let mut connect = consumer(HeartbeatMode::Full);
    connect.step = ConsumerStep::MapHead { fd: 3, size: 88 };
    connect.resume(SystemReply::Refused);
    assert_eq!(connect.step, ConsumerStep::Close { fd: 3, saved: None });
    connect.resume(SystemReply::Done);
    assert_eq!(connect.step, ConsumerStep::Unlink { saved: None });
    connect.resume(SystemReply::Done);
    assert_eq!(connect.step, ConsumerStep::LastError);

    for step in [
        ConsumerStep::Claim { fd: 3, base: 4096, head: head() },
        ConsumerStep::Unmap { fd: 3, base: 4096, head_size: 88, size: 704, id: 1 },
        ConsumerStep::MapQueue { fd: 3, size: 704, id: 1 },
    ] {
        connect.step = step;
        connect.resume(SystemReply::Refused);
        assert_eq!(connect.step, ConsumerStep::SaveError { fd: 3 });
        connect.resume(SystemReply::Error { code: 12, already_exists: false });
        assert_eq!(connect.step, ConsumerStep::Close { fd: 3, saved: Some(12) });
        connect.resume(SystemReply::Done);
        assert_eq!(connect.step, ConsumerStep::Unlink { saved: Some(12) });
        connect.resume(SystemReply::Done);
        assert_eq!(
            connect.step,
            ConsumerStep::Failed { error: ShmError::Io(IoFailure::Os(12)) }
        );
    }
}
