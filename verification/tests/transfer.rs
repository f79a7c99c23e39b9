use shmfeeder::consumer::{Consumer, ConsumerBuilder};
use shmfeeder::error::ShmError;
use shmfeeder::producer::{ConnectedMemoryType, Producer, ProducerBuilder};
use shmfeeder::region::ShmRegion;
use shmfeeder::transfer::{
    CommitAction, CommitReply, ReadAction, ReadOutcome, ReadReply,
};

fn commit(
    producer: &mut Producer<u64>,
    region: &mut ShmRegion<u64>,
    now: u64,
) -> (Vec<CommitAction>, bool) {
    let mut actions = vec![];
    let mut action = CommitAction::LoadMark;
    loop {
        actions.push(action);
        let reply = match action {
            CommitAction::LoadMark => CommitReply::Mark(region.queue.header.last_committed_slot),
            CommitAction::StoreNumber { index, seq } => {
                region.slots[index].seq = seq;
                CommitReply::Stored
            }
            CommitAction::StoreMark { index } => {
                region.queue.header.last_committed_slot = index;
                CommitReply::Stored
            }
            CommitAction::StoreBeat { value } => {
                region.queue.heartbeats.producer.heartbeat.update(value);
                CommitReply::Stored
            }
            CommitAction::CheckConsumers => {
                let tolerance = producer.liveness_tolerance;
                let consumers = &mut region.queue.heartbeats.consumers;
                CommitReply::Alive(consumers.is_any_consumer_alive(
                    &region.consumers,
                    now,
                    tolerance,
                ))
            }
            CommitAction::Finished { missed } => return (actions, missed),
        };
        action = producer.resume_commit(action, reply, now);
    }
}

fn search(consumer: &mut Consumer<u64>, region: &mut ShmRegion<u64>, now: u64) -> ReadOutcome {
    let mut action = consumer.start_read(now);
    loop {
        let reply = match action {
            ReadAction::LoadProducerBeat => {
                ReadReply::Beat(region.queue.heartbeats.producer.heartbeat.last_update_us)
            }
            ReadAction::StoreBeat { id, value } => {
                region.consumers[id].heartbeat.update(value);
                ReadReply::Stored
            }
            ReadAction::LoadNumber { slot } => ReadReply::Number(region.slots[slot].seq),
            ReadAction::Finished { outcome } => return outcome,
        };
        action = consumer.resume_read(action, reply, now);
    }
}

fn built() -> (ShmRegion<u64>, Producer<u64>, Consumer<u64>) {
    let mut region: ShmRegion<u64> = ShmRegion::zeroed(4096, 2, 4);
    let producer = ProducerBuilder::new("/q", 4)
        .unwrap()
        .with_max_consumers(2)
        .with_liveness_tolerance(100)
        .build(&mut region, ConnectedMemoryType::New, 31, 1000)
        .unwrap();
    let consumer = ConsumerBuilder::new("/q")
        .unwrap()
        .with_liveness_tolerance(100)
        .build(&mut region, 7, 1000)
        .unwrap();
    (region, producer, consumer)
}

#[test]
fn stepwise_commit_is_a_commit() {
    let (mut stepped, mut producer, _) = built();
    let (mut whole, mut other, _) = built();
    for now in [1000u64, 1050, 1051, 1090, 1102, 1200, 1260] {
        *producer.get_next_buffer(&mut stepped) = Some(now);
        *other.get_next_buffer(&mut whole) = Some(now);
        let (_, missed) = commit(&mut producer, &mut stepped, now);
        let result = other.commit_next_slot(&mut whole, now);
        assert_eq!(missed, result == Err(ShmError::NoActiveConsumer));
        assert_eq!(stepped.queue, whole.queue);
        for i in 0..4 {
            assert_eq!(stepped.slots[i].seq, whole.slots[i].seq);
            assert_eq!(stepped.slots[i].data, whole.slots[i].data);
        }
        assert_eq!(producer.last_liveness_check, other.last_liveness_check);
    }
}

#[test]
fn commit_publishes_before_it_checks() {
    let (mut region, mut producer, _) = built();
    *producer.get_next_buffer(&mut region) = Some(1);
    let (actions, missed) = commit(&mut producer, &mut region, 1100);
    assert_eq!(
        actions,
        vec![
            CommitAction::LoadMark,
            CommitAction::StoreNumber { index: 0, seq: 1 },
            CommitAction::StoreMark { index: 0 },
            CommitAction::StoreBeat { value: 1100 },
            CommitAction::CheckConsumers,
            CommitAction::Finished { missed: true },
        ]
    );
    assert!(missed);
}

#[test]
fn stepwise_search_is_a_read() {
    let (mut region, mut producer, mut consumer) = built();
    assert_eq!(search(&mut consumer, &mut region, 1000), ReadOutcome::NoData);
    producer.write(&mut region, 70);
    producer.write(&mut region, 71);
    assert_eq!(search(&mut consumer, &mut region, 1001), ReadOutcome::Item { index: 0 });
    assert_eq!(region.consumers[0].heartbeat.last_update_us, 1000);
    assert_eq!(search(&mut consumer, &mut region, 1060), ReadOutcome::Item { index: 1 });
    assert_eq!(region.consumers[0].heartbeat.last_update_us, 1060);
    assert_eq!(search(&mut consumer, &mut region, 1120), ReadOutcome::NoActiveProducer);
    assert_eq!(consumer.last_liveness_check, 1060);
}
