//! Publishing an item and looking for one, one memory access at a time.
//!
//! Each operation is a machine: it says which access it wants next, is told what
//! came of it, and decides from that alone how to go on.

use crate::consumer::Consumer;
use crate::error::{ShmError, ShmResult};
use crate::guarantees::is_stale;
use crate::heartbeats::{alive_at, HeartbeatMode, ItemHeartbeat};
use crate::layout::{ShmHeader, ShmQueue};
use crate::producer::Producer;
use crate::queue::{successor, Slot};
use crate::region::RegionView;
use vstd::prelude::*;

verus! {

/// An access that a commit wants.
#[derive(Clone, Copy, Debug, PartialEq, Eq, Structural)]
pub enum CommitAction {
    /// Read which slot was published last.
    LoadMark,
    /// Write the item's number into its slot.
    StoreNumber { index: usize, seq: usize },
    /// Mark the slot as published last.
    StoreMark { index: usize },
    /// Write the producer's sign of life.
    StoreBeat { value: u64 },
    /// Check whether a consumer is alive.
    CheckConsumers,
    /// The commit is over. The item is published; `missed` says whether no consumer
    /// was found.
    Finished { missed: bool },
}

/// What came of an access.
#[derive(Clone, Copy, Debug, PartialEq, Eq, Structural)]
pub enum CommitReply {
    Mark(usize),
    Stored,
    Alive(bool),
}

/// Whether `reply` is an answer to `action`.
pub open spec fn answers_commit(action: CommitAction, reply: CommitReply) -> bool {
    match action {
        CommitAction::LoadMark => reply is Mark,
        CommitAction::CheckConsumers => reply is Alive,
        CommitAction::Finished { .. } => false,
        _ => reply is Stored,
    }
}

impl<T> Producer<T> {
    /// The producer and the access that a commit at `now` wants after `action`.
    pub open spec fn commit_step(self, action: CommitAction, reply: CommitReply, now: u64) -> (
        Self,
        CommitAction,
    ) {
        match (action, reply) {
            (CommitAction::LoadMark, CommitReply::Mark(last)) => (
                self.after_publishing(),
                CommitAction::StoreNumber {
                    index: self.write_handle.queue.following_index(last) as usize,
                    seq: successor(self.write_handle.seq),
                },
            ),
            (CommitAction::StoreNumber { index, .. }, _) => (
                self,
                CommitAction::StoreMark { index },
            ),
            (CommitAction::StoreMark { .. }, _) => (
                self,
                if self.check_is_due(now) {
                    CommitAction::StoreBeat { value: now }
                } else {
                    CommitAction::Finished { missed: false }
                },
            ),
            (CommitAction::StoreBeat { .. }, _) => (
                Producer { last_liveness_check: now, ..self },
                if self.mode == HeartbeatMode::Full {
                    CommitAction::CheckConsumers
                } else {
                    CommitAction::Finished { missed: false }
                },
            ),
            (CommitAction::CheckConsumers, CommitReply::Alive(alive)) => (
                self,
                CommitAction::Finished { missed: !alive },
            ),
            _ => (self, action),
        }
    }

    /// Goes on with a commit at `now` after the access `action`, given what came of
    /// it. A commit starts with `CommitAction::LoadMark`.
    pub fn resume_commit(&mut self, action: CommitAction, reply: CommitReply, now: u64) -> (r:
        CommitAction)
        requires
            old(self).write_handle.wf(),
            answers_commit(action, reply),
        ensures
            (*final(self), r) == old(self).commit_step(action, reply, now),
            final(self).write_handle.wf(),
    {
        match (action, reply) {
            (CommitAction::LoadMark, CommitReply::Mark(last)) => {
                let publication = self.write_handle.publication(last);
                CommitAction::StoreNumber { index: publication.index, seq: publication.seq }
            },
            (CommitAction::StoreNumber { index, .. }, _) => CommitAction::StoreMark { index },
            (CommitAction::StoreMark { .. }, _) => {
                if self.is_check_due(now) {
                    CommitAction::StoreBeat { value: now }
                } else {
                    CommitAction::Finished { missed: false }
                }
            },
            (CommitAction::StoreBeat { .. }, _) => {
                self.last_liveness_check = now;
                if self.mode == HeartbeatMode::Full {
                    CommitAction::CheckConsumers
                } else {
                    CommitAction::Finished { missed: false }
                }
            },
            (CommitAction::CheckConsumers, CommitReply::Alive(alive)) => {
                CommitAction::Finished { missed: !alive }
            },
            _ => action,
        }
    }
}

/// What an access of a commit does to an object that nobody else touches, and what
/// comes of it.
pub open spec fn perform_commit<T>(
    region: RegionView<T>,
    action: CommitAction,
    now: u64,
    tolerance: u64,
) -> (RegionView<T>, CommitReply) {
    match action {
        CommitAction::LoadMark => (
            region,
            CommitReply::Mark(region.queue.header.last_committed_slot),
        ),
        CommitAction::StoreNumber { index, seq } => (
            RegionView {
                slots: region.slots.update(
                    index as int,
                    Slot { seq, data: region.slots[index as int].data },
                ),
                ..region
            },
            CommitReply::Stored,
        ),
        CommitAction::StoreMark { index } => (
            RegionView {
                queue: ShmQueue {
                    header: ShmHeader { last_committed_slot: index, ..region.queue.header },
                    ..region.queue
                },
                ..region
            },
            CommitReply::Stored,
        ),
        CommitAction::StoreBeat { value } => (region.producer_beat(value), CommitReply::Stored),
        CommitAction::CheckConsumers => (
            region.consumers_checked(now, tolerance),
            CommitReply::Alive(region.finds_live_consumer(now, tolerance)),
        ),
        CommitAction::Finished { .. } => (region, CommitReply::Stored),
    }
}

/// The producer, the next access and the object after so many such accesses.
pub open spec fn run_commit<T>(
    producer: Producer<T>,
    action: CommitAction,
    region: RegionView<T>,
    now: u64,
    steps: nat,
) -> (Producer<T>, CommitAction, RegionView<T>)
    decreases steps,
{
    if steps == 0 {
        (producer, action, region)
    } else {
        let (after, reply) = perform_commit(region, action, now, producer.liveness_tolerance);
        let (next, wanted) = producer.commit_step(action, reply, now);
        run_commit(next, wanted, after, now, (steps - 1) as nat)
    }
}

/// A commit that nobody interferes with does what `Producer::commit_next_slot` does:
/// it publishes the item that was written, and reports that no consumer is alive
/// exactly where a check is due, consumers are tracked and none is.
pub proof fn law_undisturbed_commit_publishes<T>(
    producer: Producer<T>,
    region: RegionView<T>,
    now: u64,
)
    requires
        producer.wf(region),
    ensures
        ({
            let (end, action, after) = run_commit(
                producer,
                CommitAction::LoadMark,
                region,
                now,
                5,
            );
            let item = region.pending(producer.write_handle.queue);
            let published = region.published(producer.write_handle, item);
            let beaten = published.producer_beat(now);
            let tolerance = producer.liveness_tolerance;
            &&& action is Finished
            &&& producer.committed(
                region,
                now,
                end,
                after,
                if action->missed {
                    Err(ShmError::NoActiveConsumer)
                } else {
                    Ok(())
                },
            )
            &&& if !producer.check_is_due(now) {
                &&& action == (CommitAction::Finished { missed: false })
                &&& end == producer.after_publishing()
                &&& after == published
            } else {
                &&& end == (Producer {
                    last_liveness_check: now,
                    ..producer.after_publishing()
                })
                &&& if producer.mode == HeartbeatMode::Full {
                    &&& action == (CommitAction::Finished {
                        missed: !beaten.finds_live_consumer(now, tolerance),
                    })
                    &&& after == beaten.consumers_checked(now, tolerance)
                } else {
                    &&& action == (CommitAction::Finished { missed: false })
                    &&& after == beaten
                }
            }
        }),
{
    reveal_with_fuel(run_commit, 6);
}

/// Where the search for the next item has led.
#[derive(Clone, Copy, Debug, PartialEq, Eq, Structural)]
pub enum ReadOutcome {
    /// There is an unread item in the slot `index`.
    Item { index: usize },
    /// There is no unread item.
    NoData,
    /// The producer is not alive.
    NoActiveProducer,
}

/// An access that the search for the next item wants.
#[derive(Clone, Copy, Debug, PartialEq, Eq, Structural)]
pub enum ReadAction {
    /// Read the producer's last sign of life.
    LoadProducerBeat,
    /// Write the sign of life of the consumer `id`, if it has a record.
    StoreBeat { id: usize, value: u64 },
    /// Read the number in a slot.
    LoadNumber { slot: usize },
    /// The search is over.
    Finished { outcome: ReadOutcome },
}

/// What came of an access.
#[derive(Clone, Copy, Debug, PartialEq, Eq, Structural)]
pub enum ReadReply {
    Beat(u64),
    Stored,
    Number(usize),
}

/// Whether `reply` is an answer to `action`.
pub open spec fn answers_read(action: ReadAction, reply: ReadReply) -> bool {
    match action {
        ReadAction::LoadProducerBeat => reply is Beat,
        ReadAction::StoreBeat { .. } => reply is Stored,
        ReadAction::LoadNumber { .. } => reply is Number,
        ReadAction::Finished { .. } => false,
    }
}

impl<T> Consumer<T> {
    /// The access that a search at `now` starts with.
    pub open spec fn first_read_action(self, now: u64) -> ReadAction {
        if self.check_is_due(now) {
            ReadAction::LoadProducerBeat
        } else {
            ReadAction::LoadNumber { slot: self.read_handle.cursor }
        }
    }

    /// Starts a search for the next item.
    pub fn start_read(&self, now: u64) -> (r: ReadAction)
        requires
            self.mode != HeartbeatMode::Disabled ==> now >= self.last_liveness_check,
        ensures
            r == self.first_read_action(now),
    {
        if self.is_check_due(now) {
            ReadAction::LoadProducerBeat
        } else {
            ReadAction::LoadNumber { slot: self.read_handle.cursor }
        }
    }

    /// The consumer and the access that a search at `now` wants after `action`.
    pub open spec fn read_step(self, action: ReadAction, reply: ReadReply, now: u64) -> (
        Self,
        ReadAction,
    ) {
        let look = ReadAction::LoadNumber { slot: self.read_handle.cursor };
        match (action, reply) {
            (ReadAction::LoadProducerBeat, ReadReply::Beat(value)) => if !alive_at(
                value,
                now,
                self.liveness_tolerance,
            ) {
                (self, ReadAction::Finished { outcome: ReadOutcome::NoActiveProducer })
            } else if self.mode == HeartbeatMode::Full {
                (self, ReadAction::StoreBeat { id: self.id, value: now })
            } else {
                (Consumer { last_liveness_check: now, ..self }, look)
            },
            (ReadAction::StoreBeat { .. }, _) => (
                Consumer { last_liveness_check: now, ..self },
                look,
            ),
            (ReadAction::LoadNumber { slot }, ReadReply::Number(seq)) => if seq
                > self.read_handle.seq {
                (
                    Consumer { read_handle: self.read_handle.after_reading(seq), ..self },
                    ReadAction::Finished { outcome: ReadOutcome::Item { index: slot } },
                )
            } else {
                (self, ReadAction::Finished { outcome: ReadOutcome::NoData })
            },
            _ => (self, action),
        }
    }

    /// Goes on with a search at `now` after the access `action`, given what came of
    /// it.
    pub fn resume_read(&mut self, action: ReadAction, reply: ReadReply, now: u64) -> (r: ReadAction)
        requires
            old(self).read_handle.wf(),
            answers_read(action, reply),
        ensures
            (*final(self), r) == old(self).read_step(action, reply, now),
            final(self).read_handle.wf(),
    {
        match (action, reply) {
            (ReadAction::LoadProducerBeat, ReadReply::Beat(value)) => {
                let heartbeat = ItemHeartbeat { pid: 0, last_update_us: value };
                if !heartbeat.is_alive(now, self.liveness_tolerance) {
                    ReadAction::Finished { outcome: ReadOutcome::NoActiveProducer }
                } else if self.mode == HeartbeatMode::Full {
                    ReadAction::StoreBeat { id: self.id, value: now }
                } else {
                    self.last_liveness_check = now;
                    ReadAction::LoadNumber { slot: self.read_handle.cursor }
                }
            },
            (ReadAction::StoreBeat { .. }, _) => {
                self.last_liveness_check = now;
                ReadAction::LoadNumber { slot: self.read_handle.cursor }
            },
            (ReadAction::LoadNumber { slot }, ReadReply::Number(seq)) => {
                if self.read_handle.observe(seq) {
                    ReadAction::Finished { outcome: ReadOutcome::Item { index: slot } }
                } else {
                    ReadAction::Finished { outcome: ReadOutcome::NoData }
                }
            },
            _ => action,
        }
    }
}

/// What an access of a search does to an object that nobody else touches, and what
/// comes of it.
pub open spec fn perform_read<T>(
    consumer: Consumer<T>,
    region: RegionView<T>,
    action: ReadAction,
) -> (RegionView<T>, ReadReply) {
    match action {
        ReadAction::LoadProducerBeat => (
            region,
            ReadReply::Beat(region.queue.heartbeats.producer.heartbeat.last_update_us),
        ),
        ReadAction::StoreBeat { value, .. } => (consumer.beat(region, value), ReadReply::Stored),
        ReadAction::LoadNumber { slot } => (
            region,
            ReadReply::Number(region.slots[slot as int].seq),
        ),
        ReadAction::Finished { .. } => (region, ReadReply::Stored),
    }
}

/// The consumer, the next access and the object after so many such accesses.
pub open spec fn run_read<T>(
    consumer: Consumer<T>,
    action: ReadAction,
    region: RegionView<T>,
    now: u64,
    steps: nat,
) -> (Consumer<T>, ReadAction, RegionView<T>)
    decreases steps,
{
    if steps == 0 {
        (consumer, action, region)
    } else {
        let (after, reply) = perform_read(consumer, region, action);
        let (next, wanted) = consumer.read_step(action, reply, now);
        run_read(next, wanted, after, now, (steps - 1) as nat)
    }
}

/// What an outcome is for the one who asked for the next item.
pub open spec fn told<'a, T>(outcome: ReadOutcome, region: RegionView<T>) -> ShmResult<&'a T> {
    match outcome {
        ReadOutcome::Item { index } => Ok(&region.slots[index as int].data->0),
        ReadOutcome::NoData => Err(ShmError::NoData),
        ReadOutcome::NoActiveProducer => Err(ShmError::NoActiveProducer),
    }
}

/// A search that nobody interferes with does what `Consumer::try_read` does.
pub proof fn law_undisturbed_search_reads<T>(
    consumer: Consumer<T>,
    region: RegionView<T>,
    now: u64,
)
    requires
        consumer.wf(region),
    ensures
        ({
            let (end, action, after) = run_read(
                consumer,
                consumer.first_read_action(now),
                region,
                now,
                3,
            );
            &&& action is Finished
            &&& consumer.tried(region, now, end, after, told(action->outcome, region))
            &&& if !consumer.check_is_due(now) {
                &&& after == region
                &&& consumer.reads(region, end, told(action->outcome, region))
            } else if !consumer.sees_producer(region, now) {
                &&& after == region
                &&& end == consumer
                &&& action->outcome == ReadOutcome::NoActiveProducer
            } else {
                &&& after == consumer.beat(region, now)
                &&& (Consumer { last_liveness_check: now, ..consumer }).reads(
                    region,
                    end,
                    told(action->outcome, region),
                )
            }
        }),
{
    reveal_with_fuel(run_read, 4);
}

/// Whatever comes of the accesses, a commit asks for what is its own: it writes the number
/// after the last of its producer into the slot behind the mark that it has read, marks
/// that slot, and only then gives the producer's sign of life, with the time, where more
/// than half the tolerance has gone by. It is over once the consumers were looked at, or
/// where nobody has to be.
pub proof fn law_commit_asks_for_its_own<T>(
    producer: Producer<T>,
    action: CommitAction,
    reply: CommitReply,
    now: u64,
)
    requires
        producer.write_handle.wf(),
        producer.liveness_check_periods == producer.liveness_tolerance / 2,
        answers_commit(action, reply),
    ensures
        ({
            let (after, next) = producer.commit_step(action, reply, now);
            let late = producer.mode != HeartbeatMode::Disabled && now
                - producer.last_liveness_check > producer.liveness_tolerance / 2;
            &&& reply matches CommitReply::Mark(mark) ==> {
                &&& next matches CommitAction::StoreNumber { index, seq } && {
                    &&& index <= producer.write_handle.queue.len_mask
                    &&& mark < producer.write_handle.queue.len_mask ==> index == mark + 1
                    &&& mark == producer.write_handle.queue.len_mask ==> index == 0
                    &&& mark == usize::MAX ==> index == 0
                    &&& seq == after.write_handle.seq
                    &&& seq == if producer.write_handle.seq == usize::MAX {
                        0
                    } else {
                        producer.write_handle.seq + 1
                    }
                }
            }
            &&& action matches CommitAction::StoreNumber { index, .. } ==> next == (
            CommitAction::StoreMark { index })
            &&& action is StoreMark ==> next == if late {
                CommitAction::StoreBeat { value: now }
            } else {
                CommitAction::Finished { missed: false }
            }
            &&& action is StoreBeat ==> after.last_liveness_check == now && next
                == if producer.mode == HeartbeatMode::Full {
                CommitAction::CheckConsumers
            } else {
                CommitAction::Finished { missed: false }
            }
            &&& !(action is StoreBeat) ==> after.last_liveness_check
                == producer.last_liveness_check
            &&& reply matches CommitReply::Alive(alive) ==> next == (CommitAction::Finished {
                missed: !alive,
            })
            &&& !(reply is Mark) ==> after.write_handle == producer.write_handle
            &&& after.liveness_tolerance == producer.liveness_tolerance
            &&& after.mode == producer.mode
        }),
{
    if action is LoadMark {
        crate::guarantees::law_slots_follow_in_turn(
            producer.write_handle.queue,
            reply->Mark_0,
        );
    }
}

/// Whatever comes of the accesses, a search asks for what is its own: it looks at the
/// producer first where more than half the tolerance has gone by, gives its own consumer's
/// sign of life with the time where the producer's is not stale, and then looks at the slot
/// at its cursor. What is newer there, by its number, it takes.
pub proof fn law_search_asks_for_its_own<T>(
    consumer: Consumer<T>,
    action: ReadAction,
    reply: ReadReply,
    now: u64,
)
    requires
        consumer.read_handle.wf(),
        consumer.liveness_check_periods == consumer.liveness_tolerance / 2,
        answers_read(action, reply),
    ensures
        ({
            let look = ReadAction::LoadNumber { slot: consumer.read_handle.cursor };
            consumer.first_read_action(now) == if consumer.mode != HeartbeatMode::Disabled && now
                - consumer.last_liveness_check > consumer.liveness_tolerance / 2 {
                ReadAction::LoadProducerBeat
            } else {
                look
            }
        }),
        ({
            let (after, next) = consumer.read_step(action, reply, now);
            let look = ReadAction::LoadNumber { slot: consumer.read_handle.cursor };
            &&& reply matches ReadReply::Beat(beat) ==> {
                let dead = is_stale(beat, now, consumer.liveness_tolerance);
                &&& dead ==> after == consumer && next == (ReadAction::Finished {
                    outcome: ReadOutcome::NoActiveProducer,
                })
                &&& !dead && consumer.mode == HeartbeatMode::Full ==> after == consumer && next == (
                ReadAction::StoreBeat { id: consumer.id, value: now })
                &&& !dead && consumer.mode != HeartbeatMode::Full ==> after.last_liveness_check
                    == now && next == look
            }
            &&& reply is Stored ==> after.last_liveness_check == now && next == look
            &&& reply matches ReadReply::Number(number) ==> {
                &&& after.last_liveness_check == consumer.last_liveness_check
                &&& number > consumer.read_handle.seq ==> {
                    &&& next == (ReadAction::Finished {
                        outcome: ReadOutcome::Item { index: action->slot },
                    })
                    &&& after.read_handle.seq == number
                    &&& after.read_handle.cursor == if consumer.read_handle.cursor
                        == consumer.read_handle.queue.len_mask {
                        0
                    } else {
                        consumer.read_handle.cursor + 1
                    }
                }
                &&& number <= consumer.read_handle.seq ==> after == consumer && next == (
                ReadAction::Finished { outcome: ReadOutcome::NoData })
            }
            &&& !(reply is Number) ==> after.read_handle == consumer.read_handle
            &&& after.read_handle.queue == consumer.read_handle.queue
            &&& after.id == consumer.id
            &&& after.mode == consumer.mode
            &&& after.liveness_tolerance == consumer.liveness_tolerance
        }),
{
    crate::guarantees::law_slots_follow_in_turn(
        consumer.read_handle.queue,
        consumer.read_handle.cursor,
    );
}

} // verus!
