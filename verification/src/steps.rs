//! Claiming a consumer record and checking for live consumers, one memory access
//! at a time.
//!
//! In shared memory other processes act between any two accesses. Here each
//! operation is a machine: it says which access it wants next, is told what came
//! of it, and decides from that alone how to go on.

use crate::guarantees::{is_nobodys, is_stale};
use crate::heartbeats::{
    alive_at, claimed, first_free_from, first_live_from, free_at, in_use_at, lemma_first_free,
    lemma_first_live, next_sequence, ConsumerHeartbeat, ConsumerHeartbeatsMeta, ItemHeartbeat,
};
use vstd::prelude::*;

verus! {

/// An access that a claim wants.
#[derive(Clone, Copy, Debug, PartialEq, Eq, Structural)]
pub enum ClaimAction {
    /// Read the last sign of life of a record.
    LoadBeat { index: usize },
    /// Mark a record that was found free as alive.
    RefreshBeat { index: usize, value: u64 },
    /// Read the claim counter of a record.
    LoadSequence { index: usize },
    /// Set the claim counter to `new` if it still is `current`.
    SwapSequence { index: usize, current: usize, new: usize },
    /// Write the process id into a record that was won.
    StorePid { index: usize, pid: i32 },
    /// Write the sign of life into a record that was won.
    StoreBeat { index: usize, value: u64 },
    /// Remember the consumer as the one seen last.
    StorePrevious { index: usize },
    /// The claim is over, with the index of the record or without one.
    Finished { id: Option<usize> },
}

/// What came of an access.
#[derive(Clone, Copy, Debug, PartialEq, Eq, Structural)]
pub enum ClaimReply {
    Beat(u64),
    Sequence(usize),
    Swapped(bool),
    Stored,
}

/// A claim of a consumer record under way.
#[derive(Clone, Copy, Debug, PartialEq, Eq, Structural)]
pub struct ConsumerClaim {
    pub max_consumers: usize,
    pub pid: i32,
    pub now: u64,
    pub tolerance: u64,
    pub action: ClaimAction,
}

/// Whether `reply` is an answer to `action`.
pub open spec fn answers_claim(action: ClaimAction, reply: ClaimReply) -> bool {
    match action {
        ClaimAction::LoadBeat { .. } => reply is Beat,
        ClaimAction::LoadSequence { .. } => reply is Sequence,
        ClaimAction::SwapSequence { .. } => reply is Swapped,
        ClaimAction::Finished { .. } => false,
        _ => reply is Stored,
    }
}

impl ConsumerClaim {
    /// The access that starts on the record `index`, if there is one.
    pub open spec fn turn_to(self, index: int) -> ClaimAction {
        if index < self.max_consumers {
            ClaimAction::LoadBeat { index: index as usize }
        } else {
            ClaimAction::Finished { id: None }
        }
    }

    /// The access after this one, given what came of it.
    pub open spec fn next_action(self, reply: ClaimReply) -> ClaimAction {
        match (self.action, reply) {
            (ClaimAction::LoadBeat { index }, ClaimReply::Beat(value)) => if free_at(
                value,
                self.now,
                self.tolerance,
            ) {
                ClaimAction::RefreshBeat { index, value: self.now }
            } else {
                self.turn_to(index + 1)
            },
            (ClaimAction::RefreshBeat { index, .. }, _) => ClaimAction::LoadSequence { index },
            (ClaimAction::LoadSequence { index }, ClaimReply::Sequence(current)) =>
                ClaimAction::SwapSequence { index, current, new: next_sequence(current) },
            (ClaimAction::SwapSequence { index, .. }, ClaimReply::Swapped(won)) => if won {
                ClaimAction::StorePid { index, pid: self.pid }
            } else {
                self.turn_to(index + 1)
            },
            (ClaimAction::StorePid { index, .. }, _) => ClaimAction::StoreBeat {
                index,
                value: self.now,
            },
            (ClaimAction::StoreBeat { index, .. }, _) => ClaimAction::StorePrevious { index },
            (ClaimAction::StorePrevious { index }, _) => ClaimAction::Finished { id: Some(index) },
            (action, _) => action,
        }
    }

    /// The record that the access is about is one of those that there are.
    pub open spec fn wf(self) -> bool {
        match self.action {
            ClaimAction::LoadBeat { index } => index < self.max_consumers,
            ClaimAction::RefreshBeat { index, .. } => index < self.max_consumers,
            ClaimAction::LoadSequence { index } => index < self.max_consumers,
            ClaimAction::SwapSequence { index, .. } => index < self.max_consumers,
            ClaimAction::StorePid { index, .. } => index < self.max_consumers,
            ClaimAction::StoreBeat { index, .. } => index < self.max_consumers,
            ClaimAction::StorePrevious { index } => index < self.max_consumers,
            ClaimAction::Finished { id } => id is Some ==> id->0 < self.max_consumers,
        }
    }

    /// A claim for the process `pid` that is about to look at the first record.
    pub open spec fn started(max_consumers: usize, pid: i32, now: u64, tolerance: u64) -> Self {
        ConsumerClaim {
            max_consumers,
            pid,
            now,
            tolerance,
            action: if max_consumers > 0 {
                ClaimAction::LoadBeat { index: 0 }
            } else {
                ClaimAction::Finished { id: None }
            },
        }
    }

    /// Starts a claim for the process `pid`.
    pub fn new(max_consumers: usize, pid: i32, now: u64, tolerance: u64) -> (r: Self)
        ensures
            r.wf(),
            r == Self::started(max_consumers, pid, now, tolerance),
    {
        let action = if max_consumers > 0 {
            ClaimAction::LoadBeat { index: 0 }
        } else {
            ClaimAction::Finished { id: None }
        };
        ConsumerClaim { max_consumers, pid, now, tolerance, action }
    }

    /// Goes on after the access, given what came of it.
    pub fn resume(&mut self, reply: ClaimReply)
        requires
            old(self).wf(),
            answers_claim(old(self).action, reply),
        ensures
            final(self).wf(),
            *final(self) == (ConsumerClaim {
                action: old(self).next_action(reply),
                ..*old(self)
            }),
    {
        self.action = match (self.action, reply) {
            (ClaimAction::LoadBeat { index }, ClaimReply::Beat(value)) => {
                let heartbeat = ItemHeartbeat { pid: 0, last_update_us: value };
                if heartbeat.is_free(self.now, self.tolerance) {
                    ClaimAction::RefreshBeat { index, value: self.now }
                } else {
                    self.after(index)
                }
            },
            (ClaimAction::RefreshBeat { index, .. }, _) => ClaimAction::LoadSequence { index },
            (ClaimAction::LoadSequence { index }, ClaimReply::Sequence(current)) => {
                ClaimAction::SwapSequence { index, current, new: current.wrapping_add(1) }
            },
            (ClaimAction::SwapSequence { index, .. }, ClaimReply::Swapped(won)) => {
                if won {
                    ClaimAction::StorePid { index, pid: self.pid }
                } else {
                    self.after(index)
                }
            },
            (ClaimAction::StorePid { index, .. }, _) => ClaimAction::StoreBeat {
                index,
                value: self.now,
            },
            (ClaimAction::StoreBeat { index, .. }, _) => ClaimAction::StorePrevious { index },
            (ClaimAction::StorePrevious { index }, _) => ClaimAction::Finished { id: Some(index) },
            (action, _) => action,
        };
    }

    fn after(&self, index: usize) -> (r: ClaimAction)
        requires
            index < self.max_consumers,
        ensures
            r == self.turn_to(index + 1),
    {
        if index + 1 < self.max_consumers {
            ClaimAction::LoadBeat { index: index + 1 }
        } else {
            ClaimAction::Finished { id: None }
        }
    }
}

/// An access that a check for live consumers wants.
#[derive(Clone, Copy, Debug, PartialEq, Eq, Structural)]
pub enum CheckAction {
    /// Read which consumer was seen last.
    LoadPrevious,
    /// Read the last sign of life of the consumer that was seen last.
    LoadBeat { index: usize },
    /// Read the last sign of life of a record in search of a live one.
    ScanBeat { index: usize },
    /// Remember the outcome of the search.
    StorePrevious { value: usize },
    /// The check is over.
    Finished { alive: bool },
}

/// What came of an access.
#[derive(Clone, Copy, Debug, PartialEq, Eq, Structural)]
pub enum CheckReply {
    Previous(usize),
    Beat(u64),
    Stored,
}

/// A check for live consumers under way.
#[derive(Clone, Copy, Debug, PartialEq, Eq, Structural)]
pub struct LivenessCheck {
    pub max_consumers: usize,
    pub now: u64,
    pub tolerance: u64,
    pub action: CheckAction,
}

/// Whether `reply` is an answer to `action`.
pub open spec fn answers_check(action: CheckAction, reply: CheckReply) -> bool {
    match action {
        CheckAction::LoadPrevious => reply is Previous,
        CheckAction::LoadBeat { .. } => reply is Beat,
        CheckAction::ScanBeat { .. } => reply is Beat,
        CheckAction::StorePrevious { .. } => reply is Stored,
        CheckAction::Finished { .. } => false,
    }
}

impl LivenessCheck {
    /// The access that starts the search for a live record.
    pub open spec fn search(self) -> CheckAction {
        if self.max_consumers > 0 {
            CheckAction::ScanBeat { index: 0 }
        } else {
            CheckAction::StorePrevious { value: self.max_consumers }
        }
    }

    /// The access that looks at the consumer that the search has found, if any.
    pub open spec fn turn_to(self, previous: usize) -> CheckAction {
        if previous < self.max_consumers {
            CheckAction::LoadBeat { index: previous }
        } else {
            CheckAction::Finished { alive: false }
        }
    }

    /// The access after this one, given what came of it.
    pub open spec fn next_action(self, reply: CheckReply) -> CheckAction {
        match (self.action, reply) {
            (CheckAction::LoadPrevious, CheckReply::Previous(previous)) => if previous
                < self.max_consumers {
                CheckAction::LoadBeat { index: previous }
            } else {
                self.search()
            },
            (CheckAction::LoadBeat { .. }, CheckReply::Beat(value)) => if in_use_at(
                value,
                self.now,
                self.tolerance,
            ) {
                CheckAction::Finished { alive: true }
            } else {
                CheckAction::ScanBeat { index: 0 }
            },
            (CheckAction::ScanBeat { index }, CheckReply::Beat(value)) => if in_use_at(
                value,
                self.now,
                self.tolerance,
            ) {
                CheckAction::StorePrevious { value: index }
            } else if index + 1 < self.max_consumers {
                CheckAction::ScanBeat { index: (index + 1) as usize }
            } else {
                CheckAction::StorePrevious { value: self.max_consumers }
            },
            (CheckAction::StorePrevious { value }, _) => self.turn_to(value),
            (action, _) => action,
        }
    }

    /// The record that the access is about is one of those that there are.
    pub open spec fn wf(self) -> bool {
        match self.action {
            CheckAction::LoadBeat { index } => index < self.max_consumers,
            CheckAction::ScanBeat { index } => index < self.max_consumers,
            CheckAction::StorePrevious { value } => value <= self.max_consumers,
            _ => true,
        }
    }

    /// Starts a check.
    pub fn new(max_consumers: usize, now: u64, tolerance: u64) -> (r: Self)
        ensures
            r.wf(),
            r == (LivenessCheck {
                max_consumers,
                now,
                tolerance,
                action: CheckAction::LoadPrevious,
            }),
    {
        LivenessCheck { max_consumers, now, tolerance, action: CheckAction::LoadPrevious }
    }

    /// Goes on after the access, given what came of it.
    pub fn resume(&mut self, reply: CheckReply)
        requires
            old(self).wf(),
            answers_check(old(self).action, reply),
        ensures
            final(self).wf(),
            *final(self) == (LivenessCheck {
                action: old(self).next_action(reply),
                ..*old(self)
            }),
    {
        self.action = match (self.action, reply) {
            (CheckAction::LoadPrevious, CheckReply::Previous(previous)) => {
                if previous < self.max_consumers {
                    CheckAction::LoadBeat { index: previous }
                } else if self.max_consumers > 0 {
                    CheckAction::ScanBeat { index: 0 }
                } else {
                    CheckAction::StorePrevious { value: self.max_consumers }
                }
            },
            (CheckAction::LoadBeat { .. }, CheckReply::Beat(value)) => {
                if self.is_alive(value) {
                    CheckAction::Finished { alive: true }
                } else {
                    CheckAction::ScanBeat { index: 0 }
                }
            },
            (CheckAction::ScanBeat { index }, CheckReply::Beat(value)) => {
                if self.is_alive(value) {
                    CheckAction::StorePrevious { value: index }
                } else if index + 1 < self.max_consumers {
                    CheckAction::ScanBeat { index: index + 1 }
                } else {
                    CheckAction::StorePrevious { value: self.max_consumers }
                }
            },
            (CheckAction::StorePrevious { value }, _) => {
                if value < self.max_consumers {
                    CheckAction::LoadBeat { index: value }
                } else {
                    CheckAction::Finished { alive: false }
                }
            },
            (action, _) => action,
        };
    }

    fn is_alive(&self, value: u64) -> (r: bool)
        ensures
            r == in_use_at(value, self.now, self.tolerance),
    {
        let heartbeat = ItemHeartbeat { pid: 0, last_update_us: value };
        heartbeat.is_in_use(self.now, self.tolerance)
    }
}

/// The consumer records and the remembered consumer.
#[verifier::ext_equal]
pub struct RecordMemory {
    pub records: Seq<ConsumerHeartbeat>,
    pub previous: usize,
}

/// What an access of a claim does to memory that nobody else touches, and what
/// comes of it.
pub open spec fn perform_claim(memory: RecordMemory, action: ClaimAction) -> (
    RecordMemory,
    ClaimReply,
) {
    let records = memory.records;
    match action {
        ClaimAction::LoadBeat { index } => (
            memory,
            ClaimReply::Beat(records[index as int].heartbeat.last_update_us),
        ),
        ClaimAction::RefreshBeat { index, value } => (
            with_beat(memory, index as int, value),
            ClaimReply::Stored,
        ),
        ClaimAction::LoadSequence { index } => (
            memory,
            ClaimReply::Sequence(records[index as int].sequence),
        ),
        ClaimAction::SwapSequence { index, current, new } => if records[index as int].sequence
            == current {
            (
                RecordMemory {
                    records: records.update(
                        index as int,
                        ConsumerHeartbeat { sequence: new, ..records[index as int] },
                    ),
                    ..memory
                },
                ClaimReply::Swapped(true),
            )
        } else {
            (memory, ClaimReply::Swapped(false))
        },
        ClaimAction::StorePid { index, pid } => (
            RecordMemory {
                records: records.update(
                    index as int,
                    ConsumerHeartbeat {
                        heartbeat: ItemHeartbeat { pid, ..records[index as int].heartbeat },
                        ..records[index as int]
                    },
                ),
                ..memory
            },
            ClaimReply::Stored,
        ),
        ClaimAction::StoreBeat { index, value } => (
            with_beat(memory, index as int, value),
            ClaimReply::Stored,
        ),
        ClaimAction::StorePrevious { index } => (
            RecordMemory { previous: index, ..memory },
            ClaimReply::Stored,
        ),
        ClaimAction::Finished { .. } => (memory, ClaimReply::Stored),
    }
}

/// Memory after the last sign of life of a record was written.
pub open spec fn with_beat(memory: RecordMemory, index: int, value: u64) -> RecordMemory {
    RecordMemory {
        records: memory.records.update(
            index,
            crate::heartbeats::beaten(memory.records[index], value),
        ),
        ..memory
    }
}

/// The claim and the memory after so many accesses that nobody interferes with.
pub open spec fn run_claim(claim: ConsumerClaim, memory: RecordMemory, steps: nat) -> (
    ConsumerClaim,
    RecordMemory,
)
    decreases steps,
{
    if steps == 0 {
        (claim, memory)
    } else {
        let (after, reply) = perform_claim(memory, claim.action);
        run_claim(
            ConsumerClaim { action: claim.next_action(reply), ..claim },
            after,
            (steps - 1) as nat,
        )
    }
}

/// How many accesses a claim takes that has come to the record `index`.
pub open spec fn claim_steps(
    records: Seq<ConsumerHeartbeat>,
    index: int,
    max: int,
    now: u64,
    tolerance: u64,
) -> nat {
    let free = first_free_from(records, index, max, now, tolerance);
    if free < max {
        (free - index + 7) as nat
    } else {
        (max - index) as nat
    }
}

proof fn lemma_claim_from(claim: ConsumerClaim, memory: RecordMemory, index: int)
    requires
        0 <= index <= claim.max_consumers <= memory.records.len(),
        claim.action == claim.turn_to(index),
    ensures
        ({
            let max = claim.max_consumers as int;
            let free = first_free_from(memory.records, index, max, claim.now, claim.tolerance);
            let steps = claim_steps(memory.records, index, max, claim.now, claim.tolerance);
            let (end, after) = run_claim(claim, memory, steps);
            if free < max {
                &&& end.action == ClaimAction::Finished { id: Some(free as usize) }
                &&& after == (RecordMemory {
                    records: memory.records.update(
                        free,
                        claimed(memory.records[free], claim.pid, claim.now),
                    ),
                    previous: free as usize,
                })
            } else {
                &&& end.action == ClaimAction::Finished { id: None }
                &&& after == memory
            }
        }),
    decreases claim.max_consumers - index,
{
    let max = claim.max_consumers as int;
    lemma_first_free(memory.records, index, max, claim.now, claim.tolerance);
    if index < max {
        let value = memory.records[index].heartbeat.last_update_us;
        if !free_at(value, claim.now, claim.tolerance) {
            let next = ConsumerClaim { action: claim.turn_to(index + 1), ..claim };
            assert(claim.next_action(ClaimReply::Beat(value)) == next.action);
            lemma_first_free(memory.records, index + 1, max, claim.now, claim.tolerance);
            lemma_claim_from(next, memory, index + 1);
        } else {
            reveal_with_fuel(run_claim, 8);
            let (end, after) = run_claim(claim, memory, 7);
            assert(after.records =~= memory.records.update(
                index,
                claimed(memory.records[index], claim.pid, claim.now),
            ));
        }
    }
}

/// A claim that nobody interferes with does what `new_consumer` does: it ends
/// with the first free record, claimed and remembered, or without one and with
/// nothing changed where no record is free.
pub proof fn law_undisturbed_claim_is_new_consumer(
    memory: RecordMemory,
    max_consumers: usize,
    pid: i32,
    now: u64,
    tolerance: u64,
)
    requires
        max_consumers <= memory.records.len(),
    ensures
        ({
            let max = max_consumers as int;
            let claim = ConsumerClaim::started(max_consumers, pid, now, tolerance);
            let free = first_free_from(memory.records, 0, max, now, tolerance);
            let (end, after) = run_claim(
                claim,
                memory,
                claim_steps(memory.records, 0, max, now, tolerance),
            );
            if free < max {
                &&& end.action == ClaimAction::Finished { id: Some(free as usize) }
                &&& after.records == memory.records.update(
                    free,
                    claimed(memory.records[free], pid, now),
                )
                &&& after.previous == free
            } else {
                &&& end.action == ClaimAction::Finished { id: None }
                &&& after == memory
            }
        }),
{
    let claim = ConsumerClaim::started(max_consumers, pid, now, tolerance);
    lemma_first_free(memory.records, 0, max_consumers as int, now, tolerance);
    lemma_claim_from(claim, memory, 0);
}

/// Whatever other processes do meanwhile, a claim writes its process id only
/// into a record whose counter it has moved on itself, and sets out to move a
/// counter on only after it has found the record free.
pub proof fn law_claim_takes_only_what_it_won(claim: ConsumerClaim, reply: ClaimReply)
    requires
        answers_claim(claim.action, reply),
    ensures
        claim.next_action(reply) matches ClaimAction::StorePid { index, pid } ==> {
            &&& pid == claim.pid
            &&& claim.action matches ClaimAction::SwapSequence { index: swapped, current, new }
            &&& swapped == index
            &&& reply == ClaimReply::Swapped(true)
        },
        claim.next_action(reply) matches ClaimAction::RefreshBeat { index, value } ==> {
            &&& value == claim.now
            &&& claim.action == ClaimAction::LoadBeat { index }
            &&& reply matches ClaimReply::Beat(seen)
            &&& free_at(seen, claim.now, claim.tolerance)
        },
{
}

/// A claim that has read a record's counter does not get the record if others have
/// won it since, be it once or many times short of all the numbers there are: it
/// goes on to the next record. So of claims that have read the same counter at most
/// one wins.
pub proof fn law_overtaken_claim_loses(
    memory: RecordMemory,
    claim: ConsumerClaim,
    index: usize,
    current: usize,
    wins: int,
)
    requires
        index < memory.records.len(),
        claim.action == (ClaimAction::SwapSequence {
            index,
            current,
            new: next_sequence(current),
        }),
        0 < wins <= usize::MAX,
        memory.records[index as int].sequence == (current + wins) % (usize::MAX + 1),
    ensures
        perform_claim(memory, claim.action) == (memory, ClaimReply::Swapped(false)),
        claim.next_action(ClaimReply::Swapped(false)) == claim.turn_to(index + 1),
{
    let numbers = usize::MAX + 1;
    if current + wins < numbers {
        vstd::arithmetic::div_mod::lemma_small_mod((current + wins) as nat, numbers as nat);
    } else {
        vstd::arithmetic::div_mod::lemma_mod_sub_multiples_vanish(current + wins, numbers);
        vstd::arithmetic::div_mod::lemma_small_mod(
            (current + wins - numbers) as nat,
            numbers as nat,
        );
    }
}

/// A claim that has found a record free and won it moves its counter on by one, and
/// one that comes to the record after the first has marked it alive passes it over
/// while that mark is recent.
pub proof fn law_record_under_claim_is_left_alone(
    memory: RecordMemory,
    winner: ConsumerClaim,
    later: ConsumerClaim,
    index: usize,
    seen: u64,
    current: usize,
)
    requires
        winner.tolerance > 0,
        free_at(seen, winner.now, winner.tolerance),
        index < memory.records.len(),
        winner.action == (ClaimAction::SwapSequence {
            index,
            current,
            new: next_sequence(current),
        }),
        memory.records[index as int].sequence == current,
        memory.records[index as int].heartbeat.last_update_us == winner.now,
        later.action == (ClaimAction::LoadBeat { index }),
        alive_at(winner.now, later.now, later.tolerance),
    ensures
        ({
            let (after, reply) = perform_claim(memory, winner.action);
            &&& reply == ClaimReply::Swapped(true)
            &&& after.records[index as int].sequence == (current + 1) % (usize::MAX + 1)
            &&& later.next_action(perform_claim(memory, later.action).1) == later.turn_to(
                index + 1,
            )
            &&& later.next_action(perform_claim(after, later.action).1) == later.turn_to(index + 1)
        }),
{
    if current < usize::MAX {
        vstd::arithmetic::div_mod::lemma_small_mod(
            (current + 1) as nat,
            (usize::MAX + 1) as nat,
        );
    } else {
        vstd::arithmetic::div_mod::lemma_mod_self_0(usize::MAX + 1);
    }
}

/// What an access of a check does to memory that nobody else touches, and what
/// comes of it.
pub open spec fn perform_check(memory: RecordMemory, action: CheckAction) -> (
    RecordMemory,
    CheckReply,
) {
    match action {
        CheckAction::LoadPrevious => (memory, CheckReply::Previous(memory.previous)),
        CheckAction::LoadBeat { index } => (
            memory,
            CheckReply::Beat(memory.records[index as int].heartbeat.last_update_us),
        ),
        CheckAction::ScanBeat { index } => (
            memory,
            CheckReply::Beat(memory.records[index as int].heartbeat.last_update_us),
        ),
        CheckAction::StorePrevious { value } => (
            RecordMemory { previous: value, ..memory },
            CheckReply::Stored,
        ),
        CheckAction::Finished { .. } => (memory, CheckReply::Stored),
    }
}

/// The check and the memory after so many accesses that nobody interferes with.
pub open spec fn run_check(check: LivenessCheck, memory: RecordMemory, steps: nat) -> (
    LivenessCheck,
    RecordMemory,
)
    decreases steps,
{
    if steps == 0 {
        (check, memory)
    } else {
        let (after, reply) = perform_check(memory, check.action);
        run_check(
            LivenessCheck { action: check.next_action(reply), ..check },
            after,
            (steps - 1) as nat,
        )
    }
}

/// How many accesses the search for a live record takes from `index` on, with
/// what follows it.
pub open spec fn scan_steps(
    records: Seq<ConsumerHeartbeat>,
    index: int,
    max: int,
    now: u64,
    tolerance: u64,
) -> nat {
    let found = first_live_from(records, index, max, now, tolerance);
    if found < max {
        (found - index + 3) as nat
    } else {
        (max - index + 1) as nat
    }
}

proof fn lemma_scan_from(check: LivenessCheck, memory: RecordMemory, index: int)
    requires
        0 <= index < check.max_consumers <= memory.records.len(),
        check.action == (CheckAction::ScanBeat { index: index as usize }),
    ensures
        ({
            let max = check.max_consumers as int;
            let found = first_live_from(memory.records, index, max, check.now, check.tolerance);
            let steps = scan_steps(memory.records, index, max, check.now, check.tolerance);
            let (end, after) = run_check(check, memory, steps);
            &&& end.action == CheckAction::Finished { alive: found < max }
            &&& after == (RecordMemory { previous: found as usize, ..memory })
        }),
    decreases check.max_consumers - index,
{
    let max = check.max_consumers as int;
    lemma_first_live(memory.records, index, max, check.now, check.tolerance);
    let value = memory.records[index].heartbeat.last_update_us;
    if in_use_at(value, check.now, check.tolerance) {
        reveal_with_fuel(run_check, 4);
    } else if index + 1 < max {
        let next = LivenessCheck {
            action: CheckAction::ScanBeat { index: (index + 1) as usize },
            ..check
        };
        assert(check.next_action(CheckReply::Beat(value)) == next.action);
        lemma_first_live(memory.records, index + 1, max, check.now, check.tolerance);
        lemma_scan_from(next, memory, index + 1);
    } else {
        reveal_with_fuel(first_live_from, 2);
        reveal_with_fuel(run_check, 3);
    }
}

/// How many accesses a whole check takes.
pub open spec fn check_steps(memory: RecordMemory, max: int, now: u64, tolerance: u64) -> nat {
    if memory.previous >= max {
        1 + scan_steps(memory.records, 0, max, now, tolerance)
    } else if crate::heartbeats::live(memory.records[memory.previous as int], now, tolerance) {
        2
    } else {
        2 + scan_steps(memory.records, 0, max, now, tolerance)
    }
}

/// A check that nobody interferes with does what `is_any_consumer_alive` does: it
/// gives the same answer and remembers the same consumer.
pub proof fn law_undisturbed_check_is_exact(
    meta: ConsumerHeartbeatsMeta,
    records: Seq<ConsumerHeartbeat>,
    now: u64,
    tolerance: u64,
)
    requires
        meta.max_consumers <= records.len(),
    ensures
        ({
            let memory = RecordMemory { records, previous: meta.prev_consumer };
            let check = LivenessCheck {
                max_consumers: meta.max_consumers,
                now,
                tolerance,
                action: CheckAction::LoadPrevious,
            };
            let (end, after) = run_check(
                check,
                memory,
                check_steps(memory, meta.max_consumers as int, now, tolerance),
            );
            &&& end.action == CheckAction::Finished {
                alive: meta.finds_live(records, now, tolerance),
            }
            &&& after.records == records
            &&& after.previous == meta.after_check(records, now, tolerance).prev_consumer
        }),
{
    let memory = RecordMemory { records, previous: meta.prev_consumer };
    let max = meta.max_consumers as int;
    let check = LivenessCheck {
        max_consumers: meta.max_consumers,
        now,
        tolerance,
        action: CheckAction::LoadPrevious,
    };
    reveal_with_fuel(run_check, 3);
    lemma_first_live(records, 0, max, now, tolerance);
    let scan = LivenessCheck { action: check.search(), ..check };
    let rest = scan_steps(records, 0, max, now, tolerance);
    if max > 0 {
        lemma_scan_from(scan, memory, 0);
    }
    if meta.prev_consumer >= max {
        assert(run_check(check, memory, 1 + rest) == run_check(scan, memory, rest));
    } else if !crate::heartbeats::live(records[meta.prev_consumer as int], now, tolerance) {
        let fast = LivenessCheck {
            action: CheckAction::LoadBeat { index: meta.prev_consumer },
            ..check
        };
        assert(run_check(check, memory, 2 + rest) == run_check(fast, memory, 1 + rest));
        assert(run_check(fast, memory, 1 + rest) == run_check(scan, memory, rest));
    }
}

/// Whatever other processes do meanwhile, a check says that a consumer is alive
/// only where it has just read a sign of life that is recent enough.
pub proof fn law_check_reports_only_seen_life(check: LivenessCheck, reply: CheckReply)
    requires
        answers_check(check.action, reply),
        check.next_action(reply) == (CheckAction::Finished { alive: true }),
    ensures
        reply matches CheckReply::Beat(seen) && in_use_at(seen, check.now, check.tolerance),
{
}

/// The record that an access of a claim is about.
pub open spec fn claim_record(action: ClaimAction) -> Option<usize> {
    match action {
        ClaimAction::LoadBeat { index } => Some(index),
        ClaimAction::RefreshBeat { index, .. } => Some(index),
        ClaimAction::LoadSequence { index } => Some(index),
        ClaimAction::SwapSequence { index, .. } => Some(index),
        ClaimAction::StorePid { index, .. } => Some(index),
        ClaimAction::StoreBeat { index, .. } => Some(index),
        ClaimAction::StorePrevious { index } => Some(index),
        ClaimAction::Finished { id } => id,
    }
}

/// Whatever other processes do meanwhile, a claim takes the records one after the other
/// and passes one over only for a reason: its sign of life is recent, or another claim
/// has won its counter. It gives up only behind the last record. Where neither is the
/// case it stays with the record and ends with it.
pub proof fn law_claim_passes_over_for_a_reason(claim: ConsumerClaim, reply: ClaimReply)
    requires
        claim.wf(),
        answers_claim(claim.action, reply),
    ensures
        ({
            let index = claim_record(claim.action)->0;
            let next = claim.next_action(reply);
            let taken = claim.action is LoadBeat && !is_nobodys(
                reply->Beat_0,
                claim.now,
                claim.tolerance,
            ) || reply == ClaimReply::Swapped(false);
            &&& taken && index + 1 < claim.max_consumers ==> next == (ClaimAction::LoadBeat {
                index: (index + 1) as usize,
            })
            &&& taken && index + 1 >= claim.max_consumers ==> next == (ClaimAction::Finished {
                id: None,
            })
            &&& !taken ==> claim_record(next) == Some(index) && next != claim.action
            &&& next is Finished && !taken ==> claim.action is StorePrevious
            &&& next matches ClaimAction::StoreBeat { value, .. } ==> value == claim.now
                && claim.action is StorePid
            &&& next is StorePrevious ==> claim.action is StoreBeat
            &&& next is LoadSequence ==> claim.action is RefreshBeat
            &&& next matches ClaimAction::SwapSequence { current, new, .. } ==> {
                &&& reply == ClaimReply::Sequence(current)
                &&& new == if current == usize::MAX {
                    0
                } else {
                    current + 1
                }
            }
        }),
{
}

/// A claim starts with the first record, if there is one.
pub proof fn law_claim_starts_at_first_record(
    max_consumers: usize,
    pid: i32,
    now: u64,
    tolerance: u64,
)
    ensures
        ({
            let claim = ConsumerClaim::started(max_consumers, pid, now, tolerance);
            &&& max_consumers > 0 ==> claim.action == (ClaimAction::LoadBeat { index: 0 })
            &&& max_consumers == 0 ==> claim.action == (ClaimAction::Finished { id: None })
            &&& claim.pid == pid
            &&& claim.now == now
            &&& claim.tolerance == tolerance
            &&& claim.max_consumers == max_consumers
        }),
{
}

/// Whatever other processes do meanwhile, a check says that nobody is alive only after
/// it has looked at every record in turn, from the first to the last, and found in none
/// a sign of life that is recent. It ends with a yes as soon as the remembered consumer
/// has given one.
pub proof fn law_check_says_no_only_after_a_full_search(check: LivenessCheck, reply: CheckReply)
    requires
        check.wf(),
        answers_check(check.action, reply),
    ensures
        ({
            let next = check.next_action(reply);
            let max = check.max_consumers;
            let seen = reply matches CheckReply::Beat(beat) && beat != 0 && !is_stale(
                beat,
                check.now,
                check.tolerance,
            );
            &&& next matches CheckAction::Finished { alive } ==> if alive {
                check.action is LoadBeat && seen
            } else {
                check.action == (CheckAction::StorePrevious { value: max })
            }
            &&& check.action is LoadBeat && seen ==> next == (CheckAction::Finished { alive: true })
            &&& check.action is LoadBeat && !seen ==> next == (CheckAction::ScanBeat { index: 0 })
            &&& check.action matches CheckAction::ScanBeat { index } ==> {
                &&& seen ==> next == (CheckAction::StorePrevious { value: index })
                &&& !seen && index + 1 < max ==> next == (CheckAction::ScanBeat {
                    index: (index + 1) as usize,
                })
                &&& !seen && index + 1 == max ==> next == (CheckAction::StorePrevious {
                    value: max,
                })
            }
            &&& check.action matches CheckAction::StorePrevious { value } ==> value < max ==> next
                == (CheckAction::LoadBeat { index: value })
            &&& check.action matches CheckAction::StorePrevious { value } ==> value == max ==> next
                == (CheckAction::Finished { alive: false })
            &&& reply matches CheckReply::Previous(previous) ==> if previous < max {
                next == (CheckAction::LoadBeat { index: previous })
            } else if max > 0 {
                next == (CheckAction::ScanBeat { index: 0 })
            } else {
                next == (CheckAction::StorePrevious { value: 0 })
            }
        }),
{
}

} // verus!
