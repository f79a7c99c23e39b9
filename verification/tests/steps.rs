use shmfeeder::heartbeats::{ConsumerHeartbeat, ConsumerHeartbeatsMeta, ItemHeartbeat};
use shmfeeder::steps::{
    CheckAction, CheckReply, ClaimAction, ClaimReply, ConsumerClaim, LivenessCheck,
};

fn record(pid: i32, beat: u64, sequence: usize) -> ConsumerHeartbeat {
    ConsumerHeartbeat { heartbeat: ItemHeartbeat { pid, last_update_us: beat }, sequence }
}

fn perform(
    action: ClaimAction,
    meta: &mut ConsumerHeartbeatsMeta,
    buffer: &mut Vec<ConsumerHeartbeat>,
) -> ClaimReply {
    match action {
        ClaimAction::LoadBeat { index } => {
            ClaimReply::Beat(buffer[index].heartbeat.last_update_us)
        }
        ClaimAction::RefreshBeat { index, value } | ClaimAction::StoreBeat { index, value } => {
            buffer[index].heartbeat.last_update_us = value;
            ClaimReply::Stored
        }
        ClaimAction::LoadSequence { index } => ClaimReply::Sequence(buffer[index].sequence),
        ClaimAction::SwapSequence { index, current, new } => {
            let won = buffer[index].sequence == current;
            if won {
                buffer[index].sequence = new;
            }
            ClaimReply::Swapped(won)
        }
        ClaimAction::StorePid { index, pid } => {
            buffer[index].heartbeat.pid = pid;
            ClaimReply::Stored
        }
        ClaimAction::StorePrevious { index } => {
            meta.prev_consumer = index;
            ClaimReply::Stored
        }
        ClaimAction::Finished { .. } => panic!("nothing left to do"),
    }
}

fn check(
    mut check: LivenessCheck,
    meta: &mut ConsumerHeartbeatsMeta,
    buffer: &Vec<ConsumerHeartbeat>,
) -> bool {
    loop {
        let reply = match check.action {
            CheckAction::LoadPrevious => CheckReply::Previous(meta.prev_consumer),
            CheckAction::LoadBeat { index } | CheckAction::ScanBeat { index } => {
                CheckReply::Beat(buffer[index].heartbeat.last_update_us)
            }
            CheckAction::StorePrevious { value } => {
                meta.prev_consumer = value;
                CheckReply::Stored
            }
            CheckAction::Finished { alive } => return alive,
        };
        check.resume(reply);
    }
}

#[test]
fn undisturbed_claim_is_a_new_consumer() {
    for beats in 0..8u64 {
        let start: Vec<ConsumerHeartbeat> = (0..3)
            .map(|i| record(i, if beats >> i & 1 == 1 { 990 } else { 10 }, i as usize))
            .collect();
        let mut meta = ConsumerHeartbeatsMeta::new(3, 24);
        let mut buffer = start.clone();
        let mut claim = ConsumerClaim::new(3, 77, 1000, 50);
        let id = loop {
            if let ClaimAction::Finished { id } = claim.action {
                break id;
            }
            claim.resume(perform(claim.action, &mut meta, &mut buffer));
        };
        let mut expected_meta = ConsumerHeartbeatsMeta::new(3, 24);
        let mut expected = start.clone();
        assert_eq!(id, expected_meta.new_consumer(&mut expected, 77, 1000, 50));
        assert_eq!(buffer, expected);
        assert_eq!(meta, expected_meta);
    }
}

#[test]
fn only_one_of_two_claims_wins_a_record() {
    let mut meta = ConsumerHeartbeatsMeta::new(2, 24);
    let mut buffer = vec![record(0, 0, 0); 2];
    let mut slow = ConsumerClaim::new(2, 1, 1000, 50);
    let mut fast = ConsumerClaim::new(2, 2, 1000, 50);
    // Both see the first record dead and read its counter.
    for _ in 0..3 {
        slow.resume(perform(slow.action, &mut meta, &mut buffer));
    }
    assert_eq!(slow.action, ClaimAction::SwapSequence { index: 0, current: 0, new: 1 });
    buffer[0].heartbeat.update(0);
    while !matches!(fast.action, ClaimAction::Finished { .. }) {
        fast.resume(perform(fast.action, &mut meta, &mut buffer));
    }
    assert_eq!(fast.action, ClaimAction::Finished { id: Some(0) });
    while !matches!(slow.action, ClaimAction::Finished { .. }) {
        slow.resume(perform(slow.action, &mut meta, &mut buffer));
    }
    assert_eq!(slow.action, ClaimAction::Finished { id: Some(1) });
    assert_eq!(buffer, vec![record(2, 1000, 1), record(1, 1000, 1)]);
    assert_eq!(meta.prev_consumer, 1);
}

#[test]
fn unused_record_is_claimed_once_the_clock_runs() {
    let mut claim = ConsumerClaim::new(1, 7, 0, 50);
    claim.resume(ClaimReply::Beat(0));
    assert_eq!(claim.action, ClaimAction::Finished { id: None });
    let mut claim = ConsumerClaim::new(1, 7, 1, 50);
    claim.resume(ClaimReply::Beat(0));
    assert_eq!(claim.action, ClaimAction::RefreshBeat { index: 0, value: 1 });
}

#[test]
fn claim_without_records_ends_at_once() {
    let claim = ConsumerClaim::new(0, 1, 1000, 50);
    assert_eq!(claim.action, ClaimAction::Finished { id: None });
}

#[test]
fn undisturbed_check_is_exact() {
    for beats in 0..8u64 {
        for previous in 0..5usize {
            let buffer: Vec<ConsumerHeartbeat> = (0..3)
                .map(|i| record(i, if beats >> i & 1 == 1 { 990 } else { 10 }, 0))
                .collect();
            let mut meta = ConsumerHeartbeatsMeta::new(3, 24);
            meta.prev_consumer = previous;
            let mut expected = meta;
            let alive = check(LivenessCheck::new(3, 1000, 50), &mut meta, &buffer);
            assert_eq!(alive, expected.is_any_consumer_alive(&buffer, 1000, 50));
            assert_eq!(meta, expected);
        }
    }
}

#[test]
fn consumer_that_dies_after_the_scan_is_not_reported() {
    let mut run = LivenessCheck::new(2, 1000, 50);
    run.resume(CheckReply::Previous(1));
    assert_eq!(run.action, CheckAction::LoadBeat { index: 1 });
    run.resume(CheckReply::Beat(10));
    assert_eq!(run.action, CheckAction::ScanBeat { index: 0 });
    run.resume(CheckReply::Beat(990));
    assert_eq!(run.action, CheckAction::StorePrevious { value: 0 });
    run.resume(CheckReply::Stored);
    assert_eq!(run.action, CheckAction::LoadBeat { index: 0 });
    run.resume(CheckReply::Beat(0));
    assert_eq!(run.action, CheckAction::ScanBeat { index: 0 });
    run.resume(CheckReply::Beat(0));
    assert_eq!(run.action, CheckAction::ScanBeat { index: 1 });
    run.resume(CheckReply::Beat(0));
    assert_eq!(run.action, CheckAction::StorePrevious { value: 2 });
    run.resume(CheckReply::Stored);
    assert_eq!(run.action, CheckAction::Finished { alive: false });
}
