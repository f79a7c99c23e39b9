//! The writing side of a queue.

use crate::dump::{debug_print_shm, Measures};
use crate::error::{ShmError, ShmResult};
use crate::heartbeats::{HeartbeatMode, Heartbeats, ItemHeartbeat, ProducerHeartbeat};
use crate::layout::{data_offset, object_size, required_size, ShmHeader, ShmQueue};
use crate::name::{first_nul, queue_name};
use crate::queue::{
    lemma_slot_layout, slot_align, slot_size, successor, BroadCastQueue, BroadcastWriteHandle,
    Slot,
};
use crate::region::{zero_region, RegionView, ShmRegion};
use crate::setup::{
    check_takeover, init_queue_at_ptr, initialised, takeover_verdict, QueueConfig,
};
use vstd::arithmetic::power2::is_pow2;
use vstd::prelude::*;
use vstd::utf8::encode_utf8;

verus! {

/// Whether a producer has made the object itself or found it.
#[derive(Clone, Copy, Debug, PartialEq, Eq, Structural)]
pub enum ConnectedMemoryType {
    New,
    Old,
}

/// Builder for creating or taking over a named shared-memory producer queue.
///
/// The `num_slots` value passed to `ProducerBuilder::new` must be a non-zero
/// power of two. Producer and consumer processes must agree on the queue name,
/// payload type, magic number, version and heartbeat mode.
#[derive(Debug)]
pub struct ProducerBuilder {
    pub name: String,
    pub config: QueueConfig,
}

/// A single writer for a shared-memory broadcast queue.
#[derive(Debug)]
pub struct Producer<T> {
    pub mmap_size: usize,
    pub mode: HeartbeatMode,
    pub liveness_check_periods: u64,
    pub last_liveness_check: u64,
    pub liveness_tolerance: u64,
    pub write_handle: BroadcastWriteHandle<T>,
}

impl ProducerBuilder {
    /// Creates a builder for a POSIX shared-memory object.
    ///
    /// `path` should normally start with `/`, for example `"/ticks"`.
    /// `num_slots` is the ring-buffer length and must be a power of two. Magic
    /// number and version are zero, the tolerance is 1000, there are 32 consumer
    /// records, and all heartbeats are kept.
    pub fn new(path: &str, num_slots: usize) -> (r: ShmResult<Self>)
        ensures
            ({
                let bytes = encode_utf8(path@);
                let nul = first_nul(bytes, 0);
                if nul < bytes.len() {
                    r == Err::<Self, ShmError>(
                        ShmError::Io(crate::error::IoFailure::InteriorNul(nul as usize)),
                    )
                } else {
                    &&& r is Ok
                    &&& r->Ok_0.name@ == path@
                    &&& r->Ok_0.config == (QueueConfig {
                        num_slots,
                        magic: 0,
                        version: 0,
                        liveness_tolerance: 1000,
                        max_consumers: 32,
                        mode: HeartbeatMode::Full,
                    })
                }
            }),
    {
        let name = queue_name(path)?;
        Ok(
            ProducerBuilder {
                name,
                config: QueueConfig {
                    num_slots,
                    magic: 0,
                    version: 0,
                    liveness_tolerance: 1000,
                    max_consumers: 32,
                    mode: HeartbeatMode::Full,
                },
            },
        )
    }

    /// Sets an application-defined magic number used to reject incompatible queues.
    pub fn with_magic(self, magic: u64) -> (r: Self)
        ensures
            r == (ProducerBuilder { config: QueueConfig { magic, ..self.config }, ..self }),
    {
        ProducerBuilder { name: self.name, config: QueueConfig { magic, ..self.config } }
    }

    /// Sets an application-defined schema version used to reject incompatible queues.
    pub fn with_version(self, version: u64) -> (r: Self)
        ensures
            r == (ProducerBuilder { config: QueueConfig { version, ..self.config }, ..self }),
    {
        ProducerBuilder { name: self.name, config: QueueConfig { version, ..self.config } }
    }

    /// Sets the liveness tolerance, in the same timestamp units passed to
    /// `ProducerBuilder::build` and `Producer::commit_next_slot`.
    ///
    /// The default is `1000`. If you pass microsecond timestamps, this means one
    /// millisecond.
    pub fn with_liveness_tolerance(self, liveness_tolerance: u64) -> (r: Self)
        ensures
            r == (ProducerBuilder {
                config: QueueConfig { liveness_tolerance, ..self.config },
                ..self
            }),
    {
        ProducerBuilder { name: self.name, config: QueueConfig { liveness_tolerance, ..self.config } }
    }

    /// Sets the maximum number of concurrently attached consumers.
    ///
    /// The default is `32`.
    pub fn with_max_consumers(self, max_consumers: usize) -> (r: Self)
        ensures
            r == (ProducerBuilder { config: QueueConfig { max_consumers, ..self.config }, ..self }),
    {
        ProducerBuilder { name: self.name, config: QueueConfig { max_consumers, ..self.config } }
    }

    /// Chooses which liveness records are kept.
    ///
    /// The default is `HeartbeatMode::Full`.
    pub fn with_heartbeat_mode(self, mode: HeartbeatMode) -> (r: Self)
        ensures
            r == (ProducerBuilder { config: QueueConfig { mode, ..self.config }, ..self }),
    {
        ProducerBuilder { name: self.name, config: QueueConfig { mode, ..self.config } }
    }

    /// Creates a producer on the object `region`, which it has either made
    /// itself, and then clears and sets up, or found, and then takes over where
    /// that is allowed. `pid` is the producer's process id.
    ///
    /// When heartbeats are enabled, `now_timestamp` is recorded as the initial
    /// producer heartbeat.
    pub fn build<T>(
        self,
        region: &mut ShmRegion<T>,
        memory: ConnectedMemoryType,
        pid: i32,
        now_timestamp: u64,
    ) -> (r: ShmResult<Producer<T>>)
        requires
            old(region)@.base + object_size::<T>(
                self.config.mode,
                self.config.num_slots as int,
                self.config.max_consumers as int,
            ) <= usize::MAX,
        ensures
            final(region)@ == set_up_region(old(region)@, memory, self.config, pid, now_timestamp),
            match takeover_outcome(old(region)@, memory, self.config, now_timestamp) {
                Err(error) => r == Err::<Producer<T>, ShmError>(error),
                Ok(()) => if is_pow2(self.config.num_slots as int) {
                    r is Ok && is_fresh_producer(
                        r->Ok_0,
                        old(region)@.base as int,
                        self.config,
                        published_before(old(region)@, memory),
                        now_timestamp,
                    )
                } else {
                    r == Err::<Producer<T>, ShmError>(ShmError::LengthNotPowerOfTwo)
                },
            },
    {
        let config = self.config;
        proof {
            lemma_ring_bytes::<T>(config.mode, config.num_slots as int, config.max_consumers as int);
            crate::layout::law_parts_fit_the_object::<T>(
                region.base as int,
                config.mode,
                config.num_slots as int,
                config.max_consumers as int,
            );
        }
        match memory {
            ConnectedMemoryType::New => {
                setup_new_memory(region, &config, pid, now_timestamp);
            },
            ConnectedMemoryType::Old => {
                setup_old_memory(region, &config, pid, now_timestamp)?;
            },
        }
        let seq = region.marked_seq();
        Producer::new(&config, region.base, region.queue.header.queue_offset, seq, now_timestamp)
    }
}

/// What comes of looking at the object: its own is always fine, a found one has
/// to pass the checks.
pub open spec fn takeover_outcome<T>(
    region: RegionView<T>,
    memory: ConnectedMemoryType,
    config: QueueConfig,
    now: u64,
) -> ShmResult<()> {
    match memory {
        ConnectedMemoryType::New => Ok(()),
        ConnectedMemoryType::Old => takeover_verdict(region.queue, config, now),
    }
}

/// The number of the item that was published last in the object: none in one that
/// is cleared, and in one that was found the one in the marked slot.
pub open spec fn published_before<T>(region: RegionView<T>, memory: ConnectedMemoryType) -> usize {
    match memory {
        ConnectedMemoryType::New => 0,
        ConnectedMemoryType::Old => region.last_seq(),
    }
}

/// The object after a producer has set it up, or as it was where it may not.
pub open spec fn set_up_region<T>(
    region: RegionView<T>,
    memory: ConnectedMemoryType,
    config: QueueConfig,
    pid: i32,
    now: u64,
) -> RegionView<T> {
    match memory {
        ConnectedMemoryType::New => {
            let zero = zero_region::<T>(region.base, region.consumers.len(), region.slots.len());
            RegionView {
                queue: initialised::<T>(
                    zero.queue,
                    region.base as int,
                    config,
                    true,
                    pid,
                    now,
                ),
                ..zero
            }
        },
        ConnectedMemoryType::Old => if takeover_verdict(region.queue, config, now) is Ok {
            RegionView {
                queue: initialised::<T>(
                    region.queue,
                    region.base as int,
                    config,
                    false,
                    pid,
                    now,
                ),
                ..region
            }
        } else {
            region
        },
    }
}

/// A producer that has published nothing yet itself, on an object at `base` in which
/// the item number `seq` was published last.
pub open spec fn is_fresh_producer<T>(
    producer: Producer<T>,
    base: int,
    config: QueueConfig,
    seq: usize,
    now: u64,
) -> bool {
    &&& producer.write_handle.wf()
    &&& producer.write_handle.seq == seq
    &&& !producer.write_handle.reserved
    &&& producer.write_handle.queue.slot_count() == config.num_slots
    &&& producer.write_handle.queue.buf == base + data_offset::<T>(
        base,
        config.mode,
        config.max_consumers as int,
    )
    &&& producer.mmap_size == object_size::<T>(
        config.mode,
        config.num_slots as int,
        config.max_consumers as int,
    )
    &&& producer.mode == config.mode
    &&& producer.liveness_tolerance == config.liveness_tolerance
    &&& producer.liveness_check_periods == config.liveness_tolerance / 2
    &&& producer.last_liveness_check == now
}

/// Clears an object and sets it up.
pub fn setup_new_memory<T>(
    region: &mut ShmRegion<T>,
    config: &QueueConfig,
    pid: i32,
    now_timestamp: u64,
)
    requires
        old(region)@.base + object_size::<T>(config.mode, 0, config.max_consumers as int)
            <= usize::MAX,
    ensures
        final(region)@ == set_up_region(
            old(region)@,
            ConnectedMemoryType::New,
            *config,
            pid,
            now_timestamp,
        ),
{
    region.clear();
    let base = region.base;
    init_queue_at_ptr::<T>(&mut region.queue, base, config, true, pid, now_timestamp);
}

/// Checks an object that was found, and sets it up where it may be taken over.
pub fn setup_old_memory<T>(
    region: &mut ShmRegion<T>,
    config: &QueueConfig,
    pid: i32,
    now_timestamp: u64,
) -> (r: ShmResult<()>)
    requires
        old(region)@.base + object_size::<T>(config.mode, 0, config.max_consumers as int)
            <= usize::MAX,
    ensures
        r == takeover_verdict(old(region)@.queue, *config, now_timestamp),
        final(region)@ == set_up_region(
            old(region)@,
            ConnectedMemoryType::Old,
            *config,
            pid,
            now_timestamp,
        ),
{
    match check_takeover(&region.queue, config, now_timestamp) {
        Err(error) => Err(error),
        Ok(()) => {
            let base = region.base;
            init_queue_at_ptr::<T>(&mut region.queue, base, config, false, pid, now_timestamp);
            Ok(())
        },
    }
}

impl<T> RegionView<T> {
    /// The object after `writer` has published `data` in the next slot.
    pub open spec fn published(self, writer: BroadcastWriteHandle<T>, data: Option<T>) -> Self {
        let next = writer.queue.following_index(self.queue.header.last_committed_slot);
        RegionView {
            queue: ShmQueue {
                header: ShmHeader { last_committed_slot: next as usize, ..self.queue.header },
                ..self.queue
            },
            slots: self.slots.update(next, Slot { seq: successor(writer.seq), data }),
            ..self
        }
    }

    /// The item in the slot after the one published last.
    pub open spec fn pending(self, queue: BroadCastQueue<T>) -> Option<T> {
        self.slots[queue.following_index(self.queue.header.last_committed_slot)].data
    }

    /// The object after a sign of life of the producer at `now`.
    pub open spec fn producer_beat(self, now: u64) -> Self {
        RegionView {
            queue: ShmQueue {
                heartbeats: Heartbeats {
                    producer: ProducerHeartbeat {
                        heartbeat: ItemHeartbeat {
                            last_update_us: now,
                            ..self.queue.heartbeats.producer.heartbeat
                        },
                    },
                    ..self.queue.heartbeats
                },
                ..self.queue
            },
            ..self
        }
    }

    /// Whether a check at `now` finds a live consumer.
    pub open spec fn finds_live_consumer(self, now: u64, tolerance: u64) -> bool {
        self.queue.heartbeats.consumers.finds_live(self.consumers, now, tolerance)
    }

    /// The object after a check for live consumers at `now`.
    pub open spec fn consumers_checked(self, now: u64, tolerance: u64) -> Self {
        RegionView {
            queue: ShmQueue {
                heartbeats: Heartbeats {
                    consumers: self.queue.heartbeats.consumers.after_check(
                        self.consumers,
                        now,
                        tolerance,
                    ),
                    ..self.queue.heartbeats
                },
                ..self.queue
            },
            ..self
        }
    }
}

impl<T> Producer<T> {
    /// The producer writes to a ring of as many slots as the object has, and checks
    /// liveness twice within the tolerance.
    pub open spec fn wf(self, region: RegionView<T>) -> bool {
        &&& self.liveness_check_periods == self.liveness_tolerance / 2
        &&& self.write_handle.wf()
        &&& region.slots.len() == self.write_handle.queue.slot_count()
        &&& region.wf()
    }

    /// The producer after it has published one more item.
    pub open spec fn after_publishing(self) -> Self {
        Producer {
            write_handle: BroadcastWriteHandle {
                queue: self.write_handle.queue,
                seq: successor(self.write_handle.seq),
                reserved: false,
            },
            ..self
        }
    }

    /// Whether more than half the tolerance has gone by since the last check.
    pub open spec fn check_is_due(self, now: u64) -> bool {
        self.mode != HeartbeatMode::Disabled && now > self.last_liveness_check
            + self.liveness_check_periods
    }

    /// Decides whether more than half the tolerance has gone by since the last
    /// check.
    pub fn is_check_due(&self, now: u64) -> (r: bool)
        ensures
            r == self.check_is_due(now),
    {
        self.mode != HeartbeatMode::Disabled && now.saturating_sub(self.last_liveness_check)
            > self.liveness_check_periods
    }

    /// A producer on an object that is mapped at `base` and whose slots start
    /// `queue_offset` bytes further on. `seq` is the number of the item that was
    /// published last.
    pub fn new(
        config: &QueueConfig,
        base: usize,
        queue_offset: usize,
        seq: usize,
        now_timestamp: u64,
    ) -> (r: ShmResult<Self>)
        requires
            base + object_size::<T>(
                config.mode,
                config.num_slots as int,
                config.max_consumers as int,
            ) <= usize::MAX,
            base + queue_offset <= usize::MAX,
        ensures
            (base + queue_offset) % slot_align::<T>() != 0 ==> r == Err::<Self, ShmError>(
                ShmError::UnalignedPtr,
            ),
            (base + queue_offset) % slot_align::<T>() == 0 && !is_pow2(config.num_slots as int)
                ==> r == Err::<Self, ShmError>(ShmError::LengthNotPowerOfTwo),
            (base + queue_offset) % slot_align::<T>() == 0 && is_pow2(config.num_slots as int)
                ==> {
                &&& r is Ok
                &&& r->Ok_0.write_handle.wf()
                &&& r->Ok_0.write_handle.seq == seq
                &&& !r->Ok_0.write_handle.reserved
                &&& r->Ok_0.write_handle.queue.slot_count() == config.num_slots
                &&& r->Ok_0.write_handle.queue.buf == base + queue_offset
                &&& r->Ok_0.mmap_size == object_size::<T>(
                    config.mode,
                    config.num_slots as int,
                    config.max_consumers as int,
                )
                &&& r->Ok_0.mode == config.mode
                &&& r->Ok_0.liveness_tolerance == config.liveness_tolerance
                &&& r->Ok_0.liveness_check_periods == config.liveness_tolerance / 2
                &&& r->Ok_0.last_liveness_check == now_timestamp
            },
    {
        proof {
            lemma_slot_layout::<T>();
            lemma_ring_bytes::<T>(config.mode, config.num_slots as int, config.max_consumers as int);
        }
        let slot = BroadCastQueue::<T>::slot_layout();
        let mmap_size = required_size::<T>(
            config.mode,
            config.num_slots,
            config.max_consumers,
        ).unwrap();
        let queue = BroadCastQueue::<T>::from_raw_parts(
            base + queue_offset,
            slot.size * config.num_slots,
        )?;
        Ok(
            Producer {
                mmap_size,
                mode: config.mode,
                liveness_check_periods: config.liveness_tolerance / 2,
                last_liveness_check: now_timestamp,
                liveness_tolerance: config.liveness_tolerance,
                write_handle: BroadcastWriteHandle::continuing(queue, seq),
            },
        )
    }

    /// The place for the next item.
    ///
    /// Write exactly one item into it, then call `Producer::commit_next_slot` to
    /// publish it. The item that the place held a round ago is dropped. Calling this
    /// again before committing gives the same place as it is.
    pub fn get_next_buffer<'a>(&mut self, region: &'a mut ShmRegion<T>) -> (r: &'a mut Option<T>)
        requires
            old(self).wf(old(region)@),
        ensures
            final(self).wf(final(region)@),
            *final(self) == (Producer {
                write_handle: BroadcastWriteHandle { reserved: true, ..old(self).write_handle },
                ..*old(self)
            }),
            ({
                let next = old(self).write_handle.queue.following_index(
                    old(region)@.queue.header.last_committed_slot,
                );
                let slots = old(region)@.slots;
                &&& *r == old(self).write_handle.offered(slots[next])
                &&& final(region)@ == (RegionView {
                    slots: slots.update(next, Slot { seq: slots[next].seq, data: *final(r) }),
                    ..old(region)@
                })
            }),
    {
        let last = region.queue.header.last_committed_slot;
        self.write_handle.get_next_buffer(last, &mut region.slots)
    }

    /// What a commit at `now` comes to: the producer and the object after it, and what
    /// is returned.
    pub open spec fn committed(
        self,
        region: RegionView<T>,
        now: u64,
        after: Self,
        after_region: RegionView<T>,
        result: ShmResult<()>,
    ) -> bool {
        let item = region.pending(self.write_handle.queue);
        let published = region.published(self.write_handle, item);
        let beaten = published.producer_beat(now);
        if !self.check_is_due(now) {
            &&& result == Ok::<(), ShmError>(())
            &&& after_region == published
            &&& after == self.after_publishing()
        } else {
            &&& after == (Producer { last_liveness_check: now, ..self.after_publishing() })
            &&& if self.mode == HeartbeatMode::Full {
                &&& after_region == beaten.consumers_checked(now, self.liveness_tolerance)
                &&& result == if beaten.finds_live_consumer(now, self.liveness_tolerance) {
                    Ok::<(), ShmError>(())
                } else {
                    Err(ShmError::NoActiveConsumer)
                }
            } else {
                &&& after_region == beaten
                &&& result == Ok::<(), ShmError>(())
            }
        }
    }

    /// Publishes the item in the place that `Producer::get_next_buffer` gave.
    ///
    /// Once more than half the tolerance has gone by since the last check,
    /// `now_timestamp` is also noted as the producer's heartbeat, and the producer
    /// checks whether at least one consumer is still alive and returns
    /// `ShmError::NoActiveConsumer` if none is found. The item is published
    /// either way.
    pub fn commit_next_slot(&mut self, region: &mut ShmRegion<T>, now_timestamp: u64) -> (r:
        ShmResult<()>)
        requires
            old(self).wf(old(region)@),
            old(region)@.pending(old(self).write_handle.queue) is Some,
        ensures
            final(self).wf(final(region)@),
            old(self).committed(old(region)@, now_timestamp, *final(self), final(region)@, r),
            ({
                let item = old(region)@.pending(old(self).write_handle.queue);
                let published = old(region)@.published(old(self).write_handle, item);
                if !old(self).check_is_due(now_timestamp) {
                    &&& r == Ok::<(), ShmError>(())
                    &&& final(region)@ == published
                    &&& *final(self) == old(self).after_publishing()
                } else {
                    let tolerance = old(self).liveness_tolerance;
                    let beaten = published.producer_beat(now_timestamp);
                    &&& *final(self) == (Producer {
                        last_liveness_check: now_timestamp,
                        ..old(self).after_publishing()
                    })
                    &&& if old(self).mode == HeartbeatMode::Full {
                        &&& final(region)@ == beaten.consumers_checked(now_timestamp, tolerance)
                        &&& r == if beaten.finds_live_consumer(now_timestamp, tolerance) {
                            Ok::<(), ShmError>(())
                        } else {
                            Err(ShmError::NoActiveConsumer)
                        }
                    } else {
                        &&& final(region)@ == beaten
                        &&& r == Ok::<(), ShmError>(())
                    }
                }
            }),
    {
        self.write_handle.commit_next_slot(
            &mut region.queue.header.last_committed_slot,
            &mut region.slots,
        );
        if self.is_check_due(now_timestamp) {
            region.queue.heartbeats.producer.heartbeat.update(now_timestamp);
            self.last_liveness_check = now_timestamp;
            if self.mode == HeartbeatMode::Full
                && !region.queue.heartbeats.consumers.is_any_consumer_alive(
                &region.consumers,
                now_timestamp,
                self.liveness_tolerance,
            ) {
                return Err(ShmError::NoActiveConsumer);
            }
        }
        Ok(())
    }

    /// Writes and publishes one item. Heartbeats are neither updated nor
    /// checked.
    pub fn write(&mut self, region: &mut ShmRegion<T>, item: T)
        requires
            old(self).wf(old(region)@),
        ensures
            final(self).wf(final(region)@),
            *final(self) == old(self).after_publishing(),
            final(region)@ == old(region)@.published(old(self).write_handle, Some(item)),
    {
        let place = self.get_next_buffer(region);
        *place = Some(item);
        self.write_handle.commit_next_slot(
            &mut region.queue.header.last_committed_slot,
            &mut region.slots,
        );
    }

    /// Notes a sign of life of the producer.
    pub fn update_heartbeat(&self, region: &mut ShmRegion<T>, now_timestamp: u64)
        requires
            self.mode != HeartbeatMode::Disabled,
        ensures
            final(region)@ == old(region)@.producer_beat(now_timestamp),
    {
        region.queue.heartbeats.producer.heartbeat.update(now_timestamp);
    }

    /// Says whether a live consumer is attached.
    pub fn check_any_consumer_alive(&self, region: &mut ShmRegion<T>, now_timestamp: u64) -> (r:
        ShmResult<()>)
        requires
            self.mode == HeartbeatMode::Full,
            old(region)@.wf(),
        ensures
            final(region)@ == old(region)@.consumers_checked(
                now_timestamp,
                self.liveness_tolerance,
            ),
            r == if old(region)@.finds_live_consumer(now_timestamp, self.liveness_tolerance) {
                Ok::<(), ShmError>(())
            } else {
                Err(ShmError::NoActiveConsumer)
            },
    {
        if region.queue.heartbeats.consumers.is_any_consumer_alive(
            &region.consumers,
            now_timestamp,
            self.liveness_tolerance,
        ) {
            Ok(())
        } else {
            Err(ShmError::NoActiveConsumer)
        }
    }

    /// The layout and the contents of the producer's object as lines of text, for
    /// debugging. `base` is the address at which the object is mapped, `queue` its
    /// fixed head and `bytes` all its bytes up to the end of its slots. `None`
    /// where the head gives sizes that cannot be counted in a word.
    pub fn debug_print_queue(&self, base: usize, queue: &ShmQueue, bytes: &Vec<u8>) -> (r: Option<
        Vec<String>,
    >)
        requires
            base + bytes@.len() <= usize::MAX,
        ensures
            r is Some <==> crate::dump::measurable::<T>(*queue, self.mode),
            r is Some ==> crate::text::texts(r->0@) == crate::dump::dump_lines(
                base as int,
                *queue,
                bytes@,
                Measures::of::<T>(*queue, self.mode),
            ),
    {
        let measures = Measures::take::<T>(queue, self.mode)?;
        Some(debug_print_shm(base, queue, &measures, bytes))
    }
}

/// The slots take their share of the object, and as many of them fit into that
/// share as there are.
proof fn lemma_ring_bytes<T>(mode: HeartbeatMode, num_slots: int, max_consumers: int)
    requires
        num_slots >= 0,
        max_consumers >= 0,
    ensures
        0 <= slot_size::<T>() * num_slots <= object_size::<T>(mode, num_slots, max_consumers),
        slot_size::<T>() * num_slots / slot_size::<T>() == num_slots,
{
    lemma_slot_layout::<T>();
    assert(slot_size::<T>() * num_slots >= 0) by (nonlinear_arith)
        requires
            num_slots >= 0,
            slot_size::<T>() >= 0,
    ;
    vstd::arithmetic::div_mod::lemma_div_multiples_vanish(num_slots, slot_size::<T>());
    crate::numeric::lemma_round_up(17 + 3 * crate::layout::word_size(), 8);
    crate::numeric::lemma_round_up(16 + 3 * crate::layout::word_size(), 8);
}

} // verus!
