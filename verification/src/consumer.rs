//! The reading side of a queue.

use crate::error::{IoFailure, ShmError, ShmResult};
use crate::heartbeats::{
    alive_at, beaten, claimed, first_free_from, ConsumerHeartbeatsMeta, HeartbeatMode, Heartbeats,
};
use crate::layout::{ShmHeader, ShmQueue};
use crate::name::{first_nul, queue_name};
use crate::queue::{
    lemma_slot_layout, slot_align, slot_size, BroadCastQueue, BroadcastReadHandle,
};
use crate::region::{RegionView, ShmRegion};
use crate::setup::{attach_verdict, check_attach};
use vstd::arithmetic::power2::is_pow2;
use vstd::prelude::*;
use vstd::utf8::encode_utf8;

verus! {

/// Builder for attaching to a named shared-memory queue.
///
/// Magic number, version and heartbeat mode have to be those of the producer.
#[derive(Debug)]
pub struct ConsumerBuilder {
    pub name: String,
    pub magic: u64,
    pub version: u64,
    pub liveness_tolerance: u64,
    pub mode: HeartbeatMode,
}

/// An independent reader of a shared-memory broadcast queue. `id` is the index
/// of its liveness record.
#[derive(Debug)]
pub struct Consumer<T> {
    pub mmap_size: usize,
    pub id: usize,
    pub mode: HeartbeatMode,
    pub liveness_tolerance: u64,
    pub liveness_check_periods: u64,
    pub last_liveness_check: u64,
    pub read_handle: BroadcastReadHandle<T>,
}

/// The bytes of the object that `header` describes, up to the end of its slots.
pub open spec fn mapped_size_spec<T>(header: ShmHeader) -> int {
    header.queue_offset + header.n_slots * slot_size::<T>()
}

/// The bytes of the object that `header` describes, up to the end of its slots,
/// or `None` where they cannot be counted in a word.
pub fn mapped_size<T>(header: &ShmHeader) -> (r: Option<usize>)
    ensures
        r == if mapped_size_spec::<T>(*header) <= usize::MAX {
            Some(mapped_size_spec::<T>(*header) as usize)
        } else {
            None
        },
{
    proof {
        lemma_slot_layout::<T>();
    }
    let slot = BroadCastQueue::<T>::slot_layout();
    assert(header.n_slots * slot_size::<T>() >= 0) by (nonlinear_arith)
        requires
            slot_size::<T>() >= 0,
    ;
    let slots: usize = header.n_slots.checked_mul(slot.size)?;
    header.queue_offset.checked_add(slots)
}

impl ConsumerBuilder {
    /// Creates a builder for attaching to the object `path`. Magic number and
    /// version are zero, the tolerance is 1000, and all heartbeats are kept.
    pub fn new(path: &str) -> (r: ShmResult<Self>)
        ensures
            ({
                let bytes = encode_utf8(path@);
                let nul = first_nul(bytes, 0);
                if nul < bytes.len() {
                    r == Err::<Self, ShmError>(ShmError::Io(IoFailure::InteriorNul(nul as usize)))
                } else {
                    &&& r is Ok
                    &&& r->Ok_0.name@ == path@
                    &&& r->Ok_0.magic == 0
                    &&& r->Ok_0.version == 0
                    &&& r->Ok_0.liveness_tolerance == 1000
                    &&& r->Ok_0.mode == HeartbeatMode::Full
                }
            }),
    {
        let name = queue_name(path)?;
        Ok(
            ConsumerBuilder {
                name,
                magic: 0,
                version: 0,
                liveness_tolerance: 1000,
                mode: HeartbeatMode::Full,
            },
        )
    }

    /// Sets the magic number that the queue has to have.
    pub fn with_magic(self, magic: u64) -> (r: Self)
        ensures
            r == (ConsumerBuilder { magic, ..self }),
    {
        ConsumerBuilder { magic, ..self }
    }

    /// Sets the version that the queue has to have.
    pub fn with_version(self, version: u64) -> (r: Self)
        ensures
            r == (ConsumerBuilder { version, ..self }),
    {
        ConsumerBuilder { version, ..self }
    }

    /// Sets the liveness tolerance, in the application's timestamp units.
    pub fn with_liveness_tolerance(self, liveness_tolerance: u64) -> (r: Self)
        ensures
            r == (ConsumerBuilder { liveness_tolerance, ..self }),
    {
        ConsumerBuilder { liveness_tolerance, ..self }
    }

    /// Says which liveness records the queue keeps.
    pub fn with_heartbeat_mode(self, mode: HeartbeatMode) -> (r: Self)
        ensures
            r == (ConsumerBuilder { mode, ..self }),
    {
        ConsumerBuilder { mode, ..self }
    }

    /// Whether the fixed head of an object lets this consumer attach at `now`, or the
    /// reason why not.
    pub open spec fn allows(self, queue: ShmQueue, now: u64) -> ShmResult<()> {
        attach_verdict(
            queue,
            self.magic,
            self.version,
            self.mode,
            self.liveness_tolerance,
            now,
        )
    }

    /// What attaching to the object comes to, before the ring is looked at: the
    /// index of the liveness record, or the reason why not. Where consumers are
    /// not tracked the index is zero.
    pub open spec fn attach_outcome<T>(self, region: RegionView<T>, now: u64) -> ShmResult<usize> {
        let consumers = region.queue.heartbeats.consumers;
        let max = consumers.max_consumers as int;
        let free = first_free_from(region.consumers, 0, max, now, self.liveness_tolerance);
        match self.allows(region.queue, now) {
            Err(error) => Err(error),
            Ok(()) => if self.mode != HeartbeatMode::Full {
                Ok(0)
            } else if free < max {
                Ok(free as usize)
            } else {
                Err(ShmError::MaxConsumerLimitReached)
            },
        }
    }

    /// The object after an attempt to attach: where it got that far and consumers
    /// are tracked, a record is claimed and remembered.
    pub open spec fn attached_region<T>(
        self,
        region: RegionView<T>,
        pid: i32,
        now: u64,
    ) -> RegionView<T> {
        match self.attach_outcome(region, now) {
            Ok(id) => if self.mode == HeartbeatMode::Full {
                RegionView {
                    queue: ShmQueue {
                        heartbeats: Heartbeats {
                            consumers: ConsumerHeartbeatsMeta {
                                prev_consumer: id,
                                ..region.queue.heartbeats.consumers
                            },
                            ..region.queue.heartbeats
                        },
                        ..region.queue
                    },
                    consumers: region.consumers.update(
                        id as int,
                        claimed(region.consumers[id as int], pid, now),
                    ),
                    ..region
                }
            } else {
                region
            },
            Err(_) => region,
        }
    }

    /// A consumer with the record `id` on the object that is mapped at `base` and
    /// has the given header, with the number `last_seq` in the slot that is marked
    /// as published last.
    pub open spec fn is_fresh_consumer<T>(
        self,
        consumer: Consumer<T>,
        base: int,
        header: ShmHeader,
        last_seq: usize,
        id: usize,
        now: u64,
    ) -> bool {
        &&& consumer.read_handle.queue.wf()
        &&& consumer.read_handle.queue.slot_count() == header.n_slots
        &&& consumer.read_handle.queue.buf == base + header.queue_offset
        &&& consumer.read_handle.seq == 0
        &&& consumer.read_handle.cursor == BroadcastReadHandle::start(
            consumer.read_handle.queue,
            header.last_committed_slot,
            last_seq,
        )
        &&& consumer.mmap_size == mapped_size_spec::<T>(header)
        &&& consumer.id == id
        &&& consumer.mode == self.mode
        &&& consumer.liveness_tolerance == self.liveness_tolerance
        &&& consumer.liveness_check_periods == self.liveness_tolerance / 2
        &&& consumer.last_liveness_check == now
    }

    /// Attaches to the object `region`. `pid` is the consumer's process id.
    pub fn build<T>(self, region: &mut ShmRegion<T>, pid: i32, now_timestamp: u64) -> (r: ShmResult<
        Consumer<T>,
    >)
        requires
            self.allows(old(region)@.queue, now_timestamp) is Ok ==> {
                &&& old(region)@.wf()
                &&& old(region)@.base + mapped_size_spec::<T>(old(region)@.queue.header)
                    <= usize::MAX
            },
        ensures
            final(region)@ == self.attached_region(old(region)@, pid, now_timestamp),
            old(region)@.wf() ==> final(region)@.wf(),
            match self.attach_outcome(old(region)@, now_timestamp) {
                Err(error) => r == Err::<Consumer<T>, ShmError>(error),
                Ok(id) => {
                    let header = old(region)@.queue.header;
                    if (old(region)@.base + header.queue_offset) % slot_align::<T>() != 0 {
                        r == Err::<Consumer<T>, ShmError>(ShmError::UnalignedPtr)
                    } else if !is_pow2(header.n_slots as int) {
                        r == Err::<Consumer<T>, ShmError>(ShmError::LengthNotPowerOfTwo)
                    } else {
                        r is Ok && self.is_fresh_consumer(
                            r->Ok_0,
                            old(region)@.base as int,
                            header,
                            old(region)@.last_seq(),
                            id,
                            now_timestamp,
                        )
                    }
                },
            },
    {
        match check_attach(
            &region.queue,
            self.magic,
            self.version,
            self.mode,
            self.liveness_tolerance,
            now_timestamp,
        ) {
            Err(error) => {
                return Err(error);
            },
            Ok(()) => {},
        }
        proof {
            crate::heartbeats::lemma_first_free(
                region.consumers@,
                0,
                region.queue.heartbeats.consumers.max_consumers as int,
                now_timestamp,
                self.liveness_tolerance,
            );
        }
        let id: usize = if self.mode == HeartbeatMode::Full {
            match region.queue.heartbeats.consumers.new_consumer(
                &mut region.consumers,
                pid,
                now_timestamp,
                self.liveness_tolerance,
            ) {
                Some(id) => id,
                None => {
                    return Err(ShmError::MaxConsumerLimitReached);
                },
            }
        } else {
            0
        };
        let last_seq = region.marked_seq();
        Consumer::new(&self, region.base, &region.queue.header, last_seq, id, now_timestamp)
    }
}

impl<T> Consumer<T> {
    /// A consumer with the record `id` on the object that is mapped at `base` and
    /// has the given header, with the number `last_seq` in the slot that is marked
    /// as published last.
    pub fn new(
        builder: &ConsumerBuilder,
        base: usize,
        header: &ShmHeader,
        last_seq: usize,
        id: usize,
        now_timestamp: u64,
    ) -> (r: ShmResult<Self>)
        requires
            base + mapped_size_spec::<T>(*header) <= usize::MAX,
        ensures
            if (base + header.queue_offset) % slot_align::<T>() != 0 {
                r == Err::<Self, ShmError>(ShmError::UnalignedPtr)
            } else if !is_pow2(header.n_slots as int) {
                r == Err::<Self, ShmError>(ShmError::LengthNotPowerOfTwo)
            } else {
                r is Ok && builder.is_fresh_consumer(
                    r->Ok_0,
                    base as int,
                    *header,
                    last_seq,
                    id,
                    now_timestamp,
                )
            },
    {
        proof {
            lemma_slot_layout::<T>();
            assert(header.n_slots * slot_size::<T>() == slot_size::<T>() * header.n_slots)
                by (nonlinear_arith);
            vstd::arithmetic::div_mod::lemma_div_multiples_vanish(
                header.n_slots as int,
                slot_size::<T>(),
            );
            assert(header.n_slots * slot_size::<T>() >= 0) by (nonlinear_arith)
                requires
                    slot_size::<T>() >= 0,
            ;
        }
        let slot = BroadCastQueue::<T>::slot_layout();
        let queue = BroadCastQueue::<T>::from_raw_parts(
            base + header.queue_offset,
            slot.size * header.n_slots,
        )?;
        Ok(
            Consumer {
                mmap_size: header.queue_offset + slot.size * header.n_slots,
                id,
                mode: builder.mode,
                liveness_tolerance: builder.liveness_tolerance,
                liveness_check_periods: builder.liveness_tolerance / 2,
                last_liveness_check: now_timestamp,
                read_handle: BroadcastReadHandle::new(queue, header.last_committed_slot, last_seq),
            },
        )
    }

    /// The consumer looks at a slot of a ring of as many slots as the object
    /// has, and checks liveness twice within the tolerance.
    pub open spec fn wf(self, region: RegionView<T>) -> bool {
        &&& self.liveness_check_periods == self.liveness_tolerance / 2
        &&& self.read_handle.wf()
        &&& region.slots.len() == self.read_handle.queue.slot_count()
        &&& region.wf()
    }

    /// Whether more than half the tolerance has gone by since the last check.
    pub open spec fn check_is_due(self, now: u64) -> bool {
        self.mode != HeartbeatMode::Disabled && now - self.last_liveness_check
            > self.liveness_check_periods
    }

    /// Decides whether more than half the tolerance has gone by since the last
    /// check.
    pub fn is_check_due(&self, now: u64) -> (r: bool)
        requires
            self.mode != HeartbeatMode::Disabled ==> now >= self.last_liveness_check,
        ensures
            r == self.check_is_due(now),
    {
        self.mode != HeartbeatMode::Disabled && now - self.last_liveness_check
            > self.liveness_check_periods
    }

    /// The object after a sign of life of this consumer at `now`.
    pub open spec fn beat(self, region: RegionView<T>, now: u64) -> RegionView<T> {
        if self.mode == HeartbeatMode::Full && self.id
            < region.queue.heartbeats.consumers.max_consumers {
            RegionView {
                consumers: region.consumers.update(
                    self.id as int,
                    beaten(region.consumers[self.id as int], now),
                ),
                ..region
            }
        } else {
            region
        }
    }

    /// Whether the producer of the object is alive at `now`.
    pub open spec fn sees_producer(self, region: RegionView<T>, now: u64) -> bool {
        alive_at(
            region.queue.heartbeats.producer.heartbeat.last_update_us,
            now,
            self.liveness_tolerance,
        )
    }

    /// The consumer after it has looked for the next item, and what it got.
    pub open spec fn reads(self, region: RegionView<T>, after: Self, result: ShmResult<&T>) -> bool {
        let slot = region.slots[self.read_handle.cursor as int];
        if slot.seq > self.read_handle.seq {
            &&& result == Ok::<&T, ShmError>(&slot.data->0)
            &&& after == (Consumer {
                read_handle: self.read_handle.after_reading(slot.seq),
                ..self
            })
        } else {
            &&& result == Err::<&T, ShmError>(ShmError::NoData)
            &&& after == self
        }
    }

    /// What a read at `now` comes to: the consumer and the object after it, and what
    /// is returned.
    pub open spec fn tried(
        self,
        region: RegionView<T>,
        now: u64,
        after: Self,
        after_region: RegionView<T>,
        result: ShmResult<&T>,
    ) -> bool {
        if !self.check_is_due(now) {
            &&& after_region == region
            &&& self.reads(region, after, result)
        } else if !self.sees_producer(region, now) {
            &&& after_region == region
            &&& after == self
            &&& result == Err::<&T, ShmError>(ShmError::NoActiveProducer)
        } else {
            &&& after_region == self.beat(region, now)
            &&& (Consumer { last_liveness_check: now, ..self }).reads(region, after, result)
        }
    }

    /// Reads the next item, or says that there is none.
    ///
    /// Once more than half the tolerance has gone by since the last check, the
    /// consumer first makes sure that the producer is alive and returns
    /// `ShmError::NoActiveProducer` where it is not; then it notes its own
    /// heartbeat. `now_timestamp` must not lie before the last check.
    pub fn try_read<'a>(&mut self, region: &'a mut ShmRegion<T>, now_timestamp: u64) -> (r: ShmResult<
        &'a T,
    >)
        requires
            old(self).wf(old(region)@),
            old(self).read_handle.finds_item(old(region)@.slots),
            old(self).mode != HeartbeatMode::Disabled ==> now_timestamp >= old(
                self,
            ).last_liveness_check,
        ensures
            final(self).wf(final(region)@),
            old(self).tried(old(region)@, now_timestamp, *final(self), final(region)@, r),
            if !old(self).check_is_due(now_timestamp) {
                &&& final(region)@ == old(region)@
                &&& old(self).reads(old(region)@, *final(self), r)
            } else if !old(self).sees_producer(old(region)@, now_timestamp) {
                &&& final(region)@ == old(region)@
                &&& *final(self) == *old(self)
                &&& r == Err::<&T, ShmError>(ShmError::NoActiveProducer)
            } else {
                &&& final(region)@ == old(self).beat(old(region)@, now_timestamp)
                &&& (Consumer { last_liveness_check: now_timestamp, ..*old(self) }).reads(
                    old(region)@,
                    *final(self),
                    r,
                )
            },
    {
        if self.is_check_due(now_timestamp) {
            if !region.queue.heartbeats.producer.heartbeat.is_alive(
                now_timestamp,
                self.liveness_tolerance,
            ) {
                return Err(ShmError::NoActiveProducer);
            }
            if self.mode == HeartbeatMode::Full {
                region.queue.heartbeats.consumers.update_heartbeat(
                    &mut region.consumers,
                    self.id,
                    now_timestamp,
                );
            }
            self.last_liveness_check = now_timestamp;
        }
        match self.read_handle.try_read(&region.slots) {
            Some(item) => Ok(item),
            None => Err(ShmError::NoData),
        }
    }

    /// Reads the next item without looking at any heartbeat.
    pub fn try_read_zero_copy<'a>(&mut self, region: &'a ShmRegion<T>) -> (r: ShmResult<&'a T>)
        requires
            old(self).wf(region@),
            old(self).read_handle.finds_item(region@.slots),
        ensures
            final(self).wf(region@),
            old(self).reads(region@, *final(self), r),
    {
        match self.read_handle.try_read(&region.slots) {
            Some(item) => Ok(item),
            None => Err(ShmError::NoData),
        }
    }

    /// Says whether the producer is alive.
    pub fn check_producer_alive(&self, region: &ShmRegion<T>, now_timestamp: u64) -> (r: ShmResult<
        (),
    >)
        requires
            self.mode != HeartbeatMode::Disabled,
        ensures
            r == if self.sees_producer(region@, now_timestamp) {
                Ok::<(), ShmError>(())
            } else {
                Err(ShmError::NoActiveProducer)
            },
    {
        if region.queue.heartbeats.producer.heartbeat.is_alive(
            now_timestamp,
            self.liveness_tolerance,
        ) {
            Ok(())
        } else {
            Err(ShmError::NoActiveProducer)
        }
    }

    /// Notes a sign of life of this consumer.
    pub fn update_heartbeat(&self, region: &mut ShmRegion<T>, now_timestamp: u64)
        requires
            self.mode == HeartbeatMode::Full,
            old(region)@.wf(),
        ensures
            final(region)@ == self.beat(old(region)@, now_timestamp),
    {
        region.queue.heartbeats.consumers.update_heartbeat(
            &mut region.consumers,
            self.id,
            now_timestamp,
        );
    }

    /// Gives the consumer up: its record is free for another one.
    pub fn drop(self, region: &mut ShmRegion<T>)
        requires
            old(region)@.wf(),
        ensures
            final(region)@ == self.beat(old(region)@, 0),
    {
        if self.mode == HeartbeatMode::Full {
            let _dropped = region.queue.heartbeats.consumers.drop_consumer(
                &mut region.consumers,
                self.id,
            );
        }
    }
}

} // verus!
