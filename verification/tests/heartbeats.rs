use shmfeeder::heartbeats::{ConsumerHeartbeat, ConsumerHeartbeatsMeta, ItemHeartbeat};

fn record(pid: i32, beat: u64, sequence: usize) -> ConsumerHeartbeat {
    ConsumerHeartbeat { heartbeat: ItemHeartbeat { pid, last_update_us: beat }, sequence }
}

#[test]
fn heartbeat_is_alive_within_tolerance() {
    let mut heartbeat = ItemHeartbeat::new(17);
    assert_eq!(heartbeat.get_pid(), 17);
    assert_eq!(heartbeat.get_value(), 0);
    heartbeat.update(1_000);
    assert_eq!(heartbeat.get_value(), 1_000);
    assert!(heartbeat.is_alive(1_099, 100));
    assert!(!heartbeat.is_alive(1_100, 100));
    // A sign of life from the future counts as one from now.
    assert!(heartbeat.is_alive(5, 100));
    assert!(!heartbeat.is_alive(1_000, 0));
}

#[test]
fn dead_record_is_reserved() {
    let mut dead = record(5, 100, usize::MAX);
    assert!(dead.try_reserve(200, 100));
    assert_eq!(dead, record(5, 200, 0));
    assert_eq!(dead.get_heartbeat().get_value(), 200);
    assert!(!dead.try_reserve(299, 100));
    assert_eq!(dead, record(5, 200, 0));
}

#[test]
fn first_free_record_is_claimed() {
    let mut meta = ConsumerHeartbeatsMeta::new(3, 24);
    assert_eq!(meta.prev_consumer, 3);
    let mut buffer = vec![record(1, 990, 1), record(2, 10, 4), record(0, 0, 0)];
    assert_eq!(meta.new_consumer(&mut buffer, 77, 1000, 50), Some(1));
    assert_eq!(buffer, vec![record(1, 990, 1), record(77, 1000, 5), record(0, 0, 0)]);
    assert_eq!(meta.prev_consumer, 1);
    assert_eq!(meta.new_consumer(&mut buffer, 78, 1000, 50), Some(2));
    let full = buffer.clone();
    assert_eq!(meta.new_consumer(&mut buffer, 79, 1000, 50), None);
    assert_eq!(buffer, full);
    assert_eq!(meta.prev_consumer, 2);
}

#[test]
fn claim_lasts_while_it_beats() {
    let mut meta = ConsumerHeartbeatsMeta::new(1, 24);
    let mut buffer = vec![record(0, 0, 0)];
    assert_eq!(meta.new_consumer(&mut buffer, 7, 1000, 50), Some(0));
    meta.update_heartbeat(&mut buffer, 0, 1040);
    assert_eq!(meta.new_consumer(&mut buffer, 8, 1089, 50), None);
    assert_eq!(meta.new_consumer(&mut buffer, 8, 1090, 50), Some(0));
    assert_eq!(buffer, vec![record(8, 1090, 2)]);
}

#[test]
fn unknown_records_are_left_alone() {
    let meta = ConsumerHeartbeatsMeta::new(1, 24);
    let mut buffer = vec![record(3, 30, 3), record(4, 40, 4)];
    assert!(!meta.drop_consumer(&mut buffer, 1));
    meta.update_heartbeat(&mut buffer, 1, 99);
    assert_eq!(buffer, vec![record(3, 30, 3), record(4, 40, 4)]);
    assert!(meta.drop_consumer(&mut buffer, 0));
    assert_eq!(buffer, vec![record(3, 0, 3), record(4, 40, 4)]);
}

#[test]
fn unused_records_are_free_at_any_time() {
    let mut meta = ConsumerHeartbeatsMeta::new(2, 24);
    let mut buffer = vec![record(0, 0, 0); 2];
    assert!(!meta.is_any_consumer_alive(&buffer, 5, 1_000));
    assert_eq!(meta.new_consumer(&mut buffer, 10, 5, 1_000), Some(0));
    assert_eq!(meta.new_consumer(&mut buffer, 11, 6, 1_000), Some(1));
    assert_eq!(meta.new_consumer(&mut buffer, 12, 7, 1_000), None);
    assert!(meta.drop_consumer(&mut buffer, 0));
    assert!(!buffer[0].heartbeat.is_in_use(8, 1_000));
    assert!(buffer[0].heartbeat.is_alive(8, 1_000));
    assert_eq!(meta.new_consumer(&mut buffer, 13, 8, 1_000), Some(0));
    assert_eq!(buffer, vec![record(13, 8, 2), record(11, 6, 1)]);
}

#[test]
fn reserved_record_is_not_handed_out_twice() {
    let mut fresh = record(0, 0, 0);
    assert!(!fresh.try_reserve(0, 1_000));
    assert_eq!(fresh, record(0, 0, 0));
    assert!(fresh.try_reserve(1, 1_000));
    assert!(!fresh.try_reserve(1, 1_000));
    assert!(!fresh.try_reserve(0, 1_000));
    assert!(!fresh.try_reserve(1_000, 1_000));
    assert!(fresh.try_reserve(1_001, 1_000));
    // Where nothing is tolerated nothing is ever alive.
    assert!(fresh.try_reserve(0, 0));
    assert!(fresh.try_reserve(0, 0));
    assert!(!fresh.heartbeat.is_free(0, 1));
    assert!(fresh.heartbeat.is_free(1, 1));
}

#[test]
fn no_record_is_claimed_at_time_zero() {
    let mut meta = ConsumerHeartbeatsMeta::new(2, 24);
    let mut buffer = vec![record(0, 0, 0); 2];
    assert_eq!(meta.new_consumer(&mut buffer, 10, 0, 1_000), None);
    assert_eq!(meta.new_consumer(&mut buffer, 10, 1, 1_000), Some(0));
    assert_eq!(meta.new_consumer(&mut buffer, 11, 1, 1_000), Some(1));
    assert_eq!(meta.new_consumer(&mut buffer, 12, 0, 1_000), None);
    assert!(meta.is_any_consumer_alive(&buffer, 600, 1_000));
    assert!(meta.drop_consumer(&mut buffer, 0));
    assert_eq!(meta.new_consumer(&mut buffer, 13, 1_000, 1_000), Some(0));
    assert_eq!(buffer, vec![record(13, 1_000, 2), record(11, 1, 1)]);
}

#[test]
fn live_consumer_is_found_and_remembered() {
    let mut meta = ConsumerHeartbeatsMeta::new(3, 24);
    let mut buffer = vec![record(0, 0, 0); 3];
    assert!(!meta.is_any_consumer_alive(&buffer, 1000, 50));
    assert_eq!(meta.prev_consumer, 3);
    // Nobody is remembered, but somebody is alive.
    buffer[1].heartbeat.update(1000);
    assert!(meta.is_any_consumer_alive(&buffer, 1000, 50));
    assert_eq!(meta.prev_consumer, 1);
    meta.drop_consumer(&mut buffer, 1);

    assert_eq!(meta.new_consumer(&mut buffer, 7, 1000, 50), Some(0));
    assert_eq!(meta.new_consumer(&mut buffer, 8, 1000, 50), Some(1));
    assert!(meta.is_any_consumer_alive(&buffer, 1001, 50));
    assert_eq!(meta.prev_consumer, 1);
    meta.drop_consumer(&mut buffer, 1);
    assert!(meta.is_any_consumer_alive(&buffer, 1001, 50));
    assert_eq!(meta.prev_consumer, 0);
    meta.update_heartbeat(&mut buffer, 2, 1040);
    assert!(meta.is_any_consumer_alive(&buffer, 1060, 50));
    assert_eq!(meta.prev_consumer, 2);
    assert!(!meta.is_any_consumer_alive(&buffer, 1090, 50));
    assert_eq!(meta.prev_consumer, 3);
    meta.update_heartbeat(&mut buffer, 0, 1095);
    assert!(meta.is_any_consumer_alive(&buffer, 1100, 50));
    assert_eq!(meta.prev_consumer, 0);
}
