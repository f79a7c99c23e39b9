//! Bringing a queue into being, taking one over, and attaching to one: what is
//! checked, and what is written in which order.

use crate::error::{ShmError, ShmResult};
use crate::heartbeats::{alive_at, ConsumerHeartbeatsMeta, HeartbeatMode, ItemHeartbeat};
use crate::layout::{
    calculate_consumer_heartbeat_offset_meta_begin, calculate_data_buffer_offset_queue_begin,
    consumer_padding, consumers_meta_offset_spec, data_offset, decoded_state, encoded_state,
    object_size, queue_size_spec, ShmHeader, ShmQueue, ShmState,
};
use crate::queue::lemma_slot_layout;
use vstd::prelude::*;

verus! {

/// What the processes that share a queue agree on, and how patient this one is.
#[derive(Clone, Copy, Debug, PartialEq, Eq, Structural)]
pub struct QueueConfig {
    pub num_slots: usize,
    pub magic: u64,
    pub version: u64,
    pub liveness_tolerance: u64,
    pub max_consumers: usize,
    pub mode: HeartbeatMode,
}

/// One write to the fixed head of a queue.
#[derive(Clone, Copy, Debug, PartialEq, Eq, Structural)]
pub enum QueueStore {
    State(u8),
    Magic(u64),
    Version(u64),
    SlotCount(usize),
    LastCommittedSlot(usize),
    Consumers(ConsumerHeartbeatsMeta),
    QueueOffset(usize),
    Producer(ItemHeartbeat),
    ProducerBeat(u64),
}

/// The fixed head after one write.
pub open spec fn stored(queue: ShmQueue, store: QueueStore) -> ShmQueue {
    let header = queue.header;
    let beats = queue.heartbeats;
    match store {
        QueueStore::State(state) => ShmQueue { header: ShmHeader { state, ..header }, ..queue },
        QueueStore::Magic(magic) => ShmQueue { header: ShmHeader { magic, ..header }, ..queue },
        QueueStore::Version(version) => ShmQueue {
            header: ShmHeader { version, ..header },
            ..queue
        },
        QueueStore::SlotCount(n_slots) => ShmQueue {
            header: ShmHeader { n_slots, ..header },
            ..queue
        },
        QueueStore::LastCommittedSlot(last_committed_slot) => ShmQueue {
            header: ShmHeader { last_committed_slot, ..header },
            ..queue
        },
        QueueStore::Consumers(consumers) => ShmQueue {
            heartbeats: crate::heartbeats::Heartbeats { consumers, ..beats },
            ..queue
        },
        QueueStore::QueueOffset(queue_offset) => ShmQueue {
            header: ShmHeader { queue_offset, ..header },
            ..queue
        },
        QueueStore::Producer(heartbeat) => ShmQueue {
            heartbeats: crate::heartbeats::Heartbeats {
                producer: crate::heartbeats::ProducerHeartbeat { heartbeat },
                ..beats
            },
            ..queue
        },
        QueueStore::ProducerBeat(last_update_us) => ShmQueue {
            heartbeats: crate::heartbeats::Heartbeats {
                producer: crate::heartbeats::ProducerHeartbeat {
                    heartbeat: ItemHeartbeat { last_update_us, ..beats.producer.heartbeat },
                },
                ..beats
            },
            ..queue
        },
    }
}

/// The fixed head after the first `count` of a list of writes.
pub open spec fn stored_prefix(queue: ShmQueue, stores: Seq<QueueStore>, count: nat) -> ShmQueue
    decreases count,
{
    if count == 0 {
        queue
    } else {
        stored(stored_prefix(queue, stores, (count - 1) as nat), stores[count - 1])
    }
}

/// The description of the consumer records of an object at `base`.
pub open spec fn fresh_consumers_meta(base: int, max_consumers: usize) -> ConsumerHeartbeatsMeta {
    ConsumerHeartbeatsMeta {
        prev_consumer: max_consumers,
        buffer_offset: (queue_size_spec(HeartbeatMode::Full) - consumers_meta_offset_spec()
            + consumer_padding(base)) as usize,
        max_consumers,
    }
}

/// The fixed head of a queue that the producer `pid` has set up at `now`. Only
/// in fresh memory is the ring put to its start; in a queue that was taken over
/// it goes on where it was.
pub open spec fn initialised<T>(
    queue: ShmQueue,
    base: int,
    config: QueueConfig,
    is_new: bool,
    pid: i32,
    now: u64,
) -> ShmQueue {
    ShmQueue {
        header: ShmHeader {
            magic: config.magic,
            version: config.version,
            n_slots: config.num_slots,
            queue_offset: data_offset::<T>(base, config.mode, config.max_consumers as int) as usize,
            last_committed_slot: if !is_new {
                queue.header.last_committed_slot
            } else if config.num_slots == 0 {
                usize::MAX
            } else {
                (config.num_slots - 1) as usize
            },
            state: encoded_state(ShmState::Ready),
        },
        heartbeats: crate::heartbeats::Heartbeats {
            producer: if config.mode == HeartbeatMode::Disabled {
                queue.heartbeats.producer
            } else {
                crate::heartbeats::ProducerHeartbeat {
                    heartbeat: ItemHeartbeat { pid, last_update_us: now },
                }
            },
            consumers: if config.mode == HeartbeatMode::Full {
                fresh_consumers_meta(base, config.max_consumers)
            } else {
                queue.heartbeats.consumers
            },
        },
    }
}

/// What a producer makes of a queue that it finds: `Ok` where it may take it
/// over.
pub open spec fn takeover_verdict(queue: ShmQueue, config: QueueConfig, now: u64) -> ShmResult<()> {
    let producer = queue.heartbeats.producer.heartbeat;
    match decoded_state(queue.header.state) {
        ShmState::Uninit => Ok(()),
        ShmState::Invalid => Err(ShmError::CorruptedQueue),
        _ => if config.mode != HeartbeatMode::Disabled && alive_at(
            producer.last_update_us,
            now,
            config.liveness_tolerance,
        ) {
            Err(ShmError::QueueAlreadyAcquired(producer.pid))
        } else if queue.header.magic != config.magic {
            Err(ShmError::BadMagicNum)
        } else if queue.header.version != config.version {
            Err(ShmError::VersionMismatch)
        } else if queue.header.n_slots != config.num_slots {
            Err(ShmError::CorruptedQueue)
        } else if config.mode == HeartbeatMode::Full
            && queue.heartbeats.consumers.max_consumers != config.max_consumers {
            Err(ShmError::CorruptedQueue)
        } else {
            Ok(())
        },
    }
}

/// What a consumer makes of a queue that it finds: `Ok` where it may attach.
pub open spec fn attach_verdict(
    queue: ShmQueue,
    magic: u64,
    version: u64,
    mode: HeartbeatMode,
    tolerance: u64,
    now: u64,
) -> ShmResult<()> {
    match decoded_state(queue.header.state) {
        ShmState::Ready => if mode != HeartbeatMode::Disabled && !alive_at(
            queue.heartbeats.producer.heartbeat.last_update_us,
            now,
            tolerance,
        ) {
            Err(ShmError::NoActiveProducer)
        } else if queue.header.magic != magic {
            Err(ShmError::BadMagicNum)
        } else if queue.header.version != version {
            Err(ShmError::VersionMismatch)
        } else {
            Ok(())
        },
        ShmState::Invalid => Err(ShmError::CorruptedQueue),
        state => Err(ShmError::QueueNotReady(state)),
    }
}

impl ShmQueue {
    /// Performs one write.
    pub fn store(&mut self, store: QueueStore)
        ensures
            *final(self) == stored(*old(self), store),
    {
        match store {
            QueueStore::State(state) => {
                self.header.state = state;
            },
            QueueStore::Magic(magic) => {
                self.header.magic = magic;
            },
            QueueStore::Version(version) => {
                self.header.version = version;
            },
            QueueStore::SlotCount(n_slots) => {
                self.header.n_slots = n_slots;
            },
            QueueStore::LastCommittedSlot(last_committed_slot) => {
                self.header.last_committed_slot = last_committed_slot;
            },
            QueueStore::Consumers(consumers) => {
                self.heartbeats.consumers = consumers;
            },
            QueueStore::QueueOffset(queue_offset) => {
                self.header.queue_offset = queue_offset;
            },
            QueueStore::Producer(heartbeat) => {
                self.heartbeats.producer.heartbeat = heartbeat;
            },
            QueueStore::ProducerBeat(value) => {
                self.heartbeats.producer.heartbeat.update(value);
            },
        }
    }
}

/// The writes that set up the fixed head of an object at `base`, in order. They
/// start by marking the queue as not ready and end by marking it as ready.
pub open spec fn setup_stores<T>(
    base: int,
    config: QueueConfig,
    is_new: bool,
    pid: i32,
    now: u64,
) -> Seq<QueueStore> {
    let head = seq![
        QueueStore::State(encoded_state(ShmState::Starting)),
        QueueStore::Magic(config.magic),
        QueueStore::Version(config.version),
        QueueStore::SlotCount(config.num_slots),
    ];
    let ring = if is_new {
        seq![
            QueueStore::LastCommittedSlot(
                if config.num_slots == 0 {
                    usize::MAX
                } else {
                    (config.num_slots - 1) as usize
                },
            ),
        ]
    } else {
        seq![]
    };
    let consumers = if config.mode == HeartbeatMode::Full {
        seq![QueueStore::Consumers(fresh_consumers_meta(base, config.max_consumers))]
    } else {
        seq![]
    };
    let offset = seq![
        QueueStore::QueueOffset(
            data_offset::<T>(base, config.mode, config.max_consumers as int) as usize,
        ),
    ];
    let producer = if config.mode == HeartbeatMode::Disabled {
        seq![]
    } else {
        seq![
            QueueStore::Producer(ItemHeartbeat { pid, last_update_us: 0 }),
            QueueStore::ProducerBeat(now),
        ]
    };
    head + ring + consumers + offset + producer + seq![
        QueueStore::State(encoded_state(ShmState::Ready)),
    ]
}

/// The writes that set up the fixed head of an object at `base`, in order.
pub fn init_stores<T>(
    base: usize,
    config: &QueueConfig,
    is_new: bool,
    pid: i32,
    now: u64,
) -> (r: Vec<QueueStore>)
    requires
        base + object_size::<T>(config.mode, 0, config.max_consumers as int) <= usize::MAX,
    ensures
        r@ == setup_stores::<T>(base as int, *config, is_new, pid, now),
{
    proof {
        lemma_slot_layout::<T>();
    }
    let mut stores: Vec<QueueStore> = Vec::new();
    stores.push(QueueStore::State(ShmState::Starting.code()));
    stores.push(QueueStore::Magic(config.magic));
    stores.push(QueueStore::Version(config.version));
    stores.push(QueueStore::SlotCount(config.num_slots));
    if is_new {
        stores.push(QueueStore::LastCommittedSlot(config.num_slots.wrapping_sub(1)));
    }
    if config.mode == HeartbeatMode::Full {
        let offset = calculate_consumer_heartbeat_offset_meta_begin(base);
        stores.push(
            QueueStore::Consumers(ConsumerHeartbeatsMeta::new(config.max_consumers, offset)),
        );
    }
    stores.push(
        QueueStore::QueueOffset(
            calculate_data_buffer_offset_queue_begin::<T>(base, config.mode, config.max_consumers),
        ),
    );
    if config.mode != HeartbeatMode::Disabled {
        stores.push(QueueStore::Producer(ItemHeartbeat::new(pid)));
        stores.push(QueueStore::ProducerBeat(now));
    }
    stores.push(QueueStore::State(ShmState::Ready.code()));
    stores
}

/// Sets up the fixed head of an object at `base` for the producer `pid`.
pub fn init_queue_at_ptr<T>(
    queue: &mut ShmQueue,
    base: usize,
    config: &QueueConfig,
    is_new: bool,
    pid: i32,
    now: u64,
)
    requires
        base + object_size::<T>(config.mode, 0, config.max_consumers as int) <= usize::MAX,
    ensures
        *final(queue) == initialised::<T>(*old(queue), base as int, *config, is_new, pid, now),
{
    let stores = init_stores::<T>(base, config, is_new, pid, now);
    let mut i: usize = 0;
    while i < stores.len()
        invariant
            i <= stores@.len(),
            *queue == stored_prefix(*old(queue), stores@, i as nat),
        decreases stores@.len() - i,
    {
        queue.store(stores[i]);
        i = i + 1;
    }
    proof {
        lemma_setup_stores::<T>(*old(queue), base as int, *config, is_new, pid, now);
    }
}

/// The writes of a setup, all of them, leave the fixed head set up.
pub proof fn lemma_setup_stores<T>(
    queue: ShmQueue,
    base: int,
    config: QueueConfig,
    is_new: bool,
    pid: i32,
    now: u64,
)
    ensures
        ({
            let stores = setup_stores::<T>(base, config, is_new, pid, now);
            stored_prefix(queue, stores, stores.len()) == initialised::<T>(
                queue,
                base,
                config,
                is_new,
                pid,
                now,
            )
        }),
{
    reveal_with_fuel(stored_prefix, 11);
}

/// Decides whether a producer may take over the queue that it has found.
pub fn check_takeover(queue: &ShmQueue, config: &QueueConfig, now: u64) -> (r: ShmResult<()>)
    ensures
        r == takeover_verdict(*queue, *config, now),
{
    match ShmState::from(queue.header.state) {
        ShmState::Starting | ShmState::Ready | ShmState::ShuttingDown => {
            let producer = &queue.heartbeats.producer.heartbeat;
            if config.mode != HeartbeatMode::Disabled && producer.is_alive(
                now,
                config.liveness_tolerance,
            ) {
                return Err(ShmError::QueueAlreadyAcquired(producer.get_pid()));
            }
            if queue.header.magic != config.magic {
                return Err(ShmError::BadMagicNum);
            }
            if queue.header.version != config.version {
                return Err(ShmError::VersionMismatch);
            }
            if queue.header.n_slots != config.num_slots {
                return Err(ShmError::CorruptedQueue);
            }
            if config.mode == HeartbeatMode::Full && queue.heartbeats.consumers.max_consumers
                != config.max_consumers {
                return Err(ShmError::CorruptedQueue);
            }
            Ok(())
        },
        ShmState::Invalid => Err(ShmError::CorruptedQueue),
        ShmState::Uninit => Ok(()),
    }
}

/// Decides whether a consumer may attach to the queue that it has found.
pub fn check_attach(
    queue: &ShmQueue,
    magic: u64,
    version: u64,
    mode: HeartbeatMode,
    tolerance: u64,
    now: u64,
) -> (r: ShmResult<()>)
    ensures
        r == attach_verdict(*queue, magic, version, mode, tolerance, now),
{
    let state = ShmState::from(queue.header.state);
    match state {
        ShmState::Starting | ShmState::Uninit | ShmState::ShuttingDown => Err(
            ShmError::QueueNotReady(state),
        ),
        ShmState::Ready => {
            if mode != HeartbeatMode::Disabled && !queue.heartbeats.producer.heartbeat.is_alive(
                now,
                tolerance,
            ) {
                return Err(ShmError::NoActiveProducer);
            }
            if queue.header.magic != magic {
                return Err(ShmError::BadMagicNum);
            }
            if queue.header.version != version {
                return Err(ShmError::VersionMismatch);
            }
            Ok(())
        },
        ShmState::Invalid => Err(ShmError::CorruptedQueue),
    }
}

/// Between the first and the last write of a setup the queue is marked as
/// starting, so a consumer that looks at it then is told that it is not ready.
pub proof fn law_half_set_up_queue_is_not_ready<T>(
    queue: ShmQueue,
    base: int,
    config: QueueConfig,
    is_new: bool,
    pid: i32,
    now: u64,
    count: nat,
    magic: u64,
    version: u64,
    mode: HeartbeatMode,
    tolerance: u64,
    consumer_now: u64,
)
    requires
        0 < count < setup_stores::<T>(base, config, is_new, pid, now).len(),
    ensures
        ({
            let stores = setup_stores::<T>(base, config, is_new, pid, now);
            let seen = stored_prefix(queue, stores, count);
            &&& decoded_state(seen.header.state) == ShmState::Starting
            &&& attach_verdict(seen, magic, version, mode, tolerance, consumer_now) == Err::<
                (),
                ShmError,
            >(ShmError::QueueNotReady(ShmState::Starting))
        }),
    decreases count,
{
    if count > 1 {
        law_half_set_up_queue_is_not_ready::<T>(
            queue,
            base,
            config,
            is_new,
            pid,
            now,
            (count - 1) as nat,
            magic,
            version,
            mode,
            tolerance,
            consumer_now,
        );
    } else {
        reveal_with_fuel(stored_prefix, 2);
    }
}

/// A queue whose producer is alive is not taken over: another producer is told
/// the owner's process id, unless the queue's state says that there is nothing
/// to own.
pub proof fn law_live_producer_keeps_queue(queue: ShmQueue, config: QueueConfig, now: u64)
    requires
        config.mode != HeartbeatMode::Disabled,
        alive_at(
            queue.heartbeats.producer.heartbeat.last_update_us,
            now,
            config.liveness_tolerance,
        ),
        decoded_state(queue.header.state) != ShmState::Uninit,
        decoded_state(queue.header.state) != ShmState::Invalid,
    ensures
        takeover_verdict(queue, config, now) == Err::<(), ShmError>(
            ShmError::QueueAlreadyAcquired(queue.heartbeats.producer.heartbeat.pid),
        ),
{
}

/// A queue that was just set up belongs to its producer for the length of the
/// tolerance: until then every other producer of the same mode is refused with
/// that producer's process id.
pub proof fn law_set_up_queue_is_owned<T>(
    queue: ShmQueue,
    base: int,
    config: QueueConfig,
    is_new: bool,
    pid: i32,
    now: u64,
    other: QueueConfig,
    later: u64,
)
    requires
        config.mode != HeartbeatMode::Disabled,
        other.mode == config.mode,
        alive_at(now, later, other.liveness_tolerance),
    ensures
        takeover_verdict(
            initialised::<T>(queue, base, config, is_new, pid, now),
            other,
            later,
        ) == Err::<(), ShmError>(ShmError::QueueAlreadyAcquired(pid)),
{
}

/// Once its producer is dead, a queue that was set up can be taken over by a
/// producer that agrees on magic number, version, length and number of
/// consumers, and by no other.
pub proof fn law_dead_queue_goes_to_matching_producer<T>(
    queue: ShmQueue,
    base: int,
    config: QueueConfig,
    is_new: bool,
    pid: i32,
    now: u64,
    other: QueueConfig,
    later: u64,
)
    requires
        other.mode == config.mode,
        config.mode != HeartbeatMode::Disabled ==> !alive_at(
            now,
            later,
            other.liveness_tolerance,
        ),
    ensures
        takeover_verdict(
            initialised::<T>(queue, base, config, is_new, pid, now),
            other,
            later,
        ) is Ok <==> {
            &&& other.magic == config.magic
            &&& other.version == config.version
            &&& other.num_slots == config.num_slots
            &&& config.mode == HeartbeatMode::Full ==> other.max_consumers == config.max_consumers
        },
{
}

/// A consumer may attach to a queue that was set up exactly where it agrees on
/// the magic number and the version and finds the producer alive; otherwise it
/// learns which of the three it is.
pub proof fn law_set_up_queue_takes_matching_consumer<T>(
    queue: ShmQueue,
    base: int,
    config: QueueConfig,
    is_new: bool,
    pid: i32,
    now: u64,
    magic: u64,
    version: u64,
    tolerance: u64,
    later: u64,
)
    ensures
        ({
            let ready = initialised::<T>(queue, base, config, is_new, pid, now);
            let verdict = attach_verdict(ready, magic, version, config.mode, tolerance, later);
            let found_alive = config.mode == HeartbeatMode::Disabled || alive_at(
                now,
                later,
                tolerance,
            );
            &&& verdict is Ok <==> found_alive && magic == config.magic && version == config.version
            &&& !found_alive ==> verdict == Err::<(), ShmError>(ShmError::NoActiveProducer)
            &&& found_alive && magic != config.magic ==> verdict == Err::<(), ShmError>(
                ShmError::BadMagicNum,
            )
            &&& found_alive && magic == config.magic && version != config.version ==> verdict
                == Err::<(), ShmError>(ShmError::VersionMismatch)
        }),
{
}

/// A write changes what it is about and nothing else in the fixed head. One of the
/// producer's sign of life leaves the process.
pub proof fn law_write_changes_one_part(queue: ShmQueue, store: QueueStore)
    ensures
        ({
            let after = stored(queue, store);
            let (old_header, new_header) = (queue.header, after.header);
            let (old_beats, new_beats) = (queue.heartbeats, after.heartbeats);
            &&& new_header.state == if let QueueStore::State(state) = store {
                state
            } else {
                old_header.state
            }
            &&& new_header.magic == if let QueueStore::Magic(magic) = store {
                magic
            } else {
                old_header.magic
            }
            &&& new_header.version == if let QueueStore::Version(version) = store {
                version
            } else {
                old_header.version
            }
            &&& new_header.n_slots == if let QueueStore::SlotCount(count) = store {
                count
            } else {
                old_header.n_slots
            }
            &&& new_header.last_committed_slot == if let QueueStore::LastCommittedSlot(mark)
                = store {
                mark
            } else {
                old_header.last_committed_slot
            }
            &&& new_header.queue_offset == if let QueueStore::QueueOffset(offset) = store {
                offset
            } else {
                old_header.queue_offset
            }
            &&& new_beats.consumers == if let QueueStore::Consumers(consumers) = store {
                consumers
            } else {
                old_beats.consumers
            }
            &&& new_beats.producer.heartbeat.last_update_us == match store {
                QueueStore::Producer(heartbeat) => heartbeat.last_update_us,
                QueueStore::ProducerBeat(value) => value,
                _ => old_beats.producer.heartbeat.last_update_us,
            }
            &&& new_beats.producer.heartbeat.pid == match store {
                QueueStore::Producer(heartbeat) => heartbeat.pid,
                _ => old_beats.producer.heartbeat.pid,
            }
        }),
{
}

/// A setup writes nothing twice but the state, and the ring's mark only in new memory. The
/// state is the first and the last thing that it writes: not ready, and then ready.
pub proof fn law_setup_starts_and_ends_with_the_state<T>(
    base: int,
    config: QueueConfig,
    is_new: bool,
    pid: i32,
    now: u64,
    i: int,
)
    requires
        0 <= i < setup_stores::<T>(base, config, is_new, pid, now).len(),
    ensures
        ({
            let stores = setup_stores::<T>(base, config, is_new, pid, now);
            &&& stores[0] == QueueStore::State(0)
            &&& stores.last() == QueueStore::State(1)
            &&& stores[i] is State <==> i == 0 || i == stores.len() - 1
            &&& stores[i] is LastCommittedSlot ==> is_new
            &&& stores[i] is Consumers ==> config.mode == HeartbeatMode::Full
            &&& stores[i] is Producer || stores[i] is ProducerBeat ==> config.mode
                != HeartbeatMode::Disabled
        }),
{
}

} // verus!
