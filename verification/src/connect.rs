//! Getting hold of the shared-memory object, one system call at a time.
//!
//! A connection is a machine: it says which call it wants next, is told what came
//! of it, and decides from that how to go on, until it is connected or has failed.

use crate::consumer::{mapped_size, mapped_size_spec, Consumer, ConsumerBuilder};
use crate::error::{IoFailure, ShmError, ShmResult};
use crate::heartbeats::{
    claimed, first_free_from, ConsumerHeartbeatsMeta, HeartbeatMode, Heartbeats,
};
use crate::layout::{
    calculate_data_buffer_offset_queue_begin, object_size, queue_size, queue_size_spec,
    required_size, ShmQueue,
};
use crate::producer::{
    is_fresh_producer, published_before, set_up_region, takeover_outcome, ConnectedMemoryType,
    Producer,
};
use crate::queue::{lemma_slot_layout, slot_align};
use crate::region::{zero_region, RegionView};
use crate::setup::{
    attach_verdict, check_attach, check_takeover, setup_stores, stored_prefix, takeover_verdict,
    QueueConfig,
};
use core::marker::PhantomData;
use vstd::arithmetic::power2::is_pow2;
use vstd::prelude::*;

verus! {

/// What came of a call.
#[derive(Clone, Copy, Debug, PartialEq, Eq, Structural)]
pub enum SystemReply {
    /// The object was opened under this descriptor.
    Descriptor(i32),
    /// The call failed.
    Refused,
    /// The call succeeded.
    Done,
    /// The object was mapped at this address.
    Mapped(usize),
    /// The code of the last error, and whether it says that the object exists.
    Error { code: i32, already_exists: bool },
    /// The fixed head of the mapped object.
    Head(ShmQueue),
    /// The consumer record that was claimed, if one was free.
    Claimed(Option<usize>),
    /// The number in the slot that is marked as published last, or zero where the
    /// mark is no slot.
    Number(usize),
}

/// The call that a producer's connection wants, or how it ended.
#[derive(Clone, Copy, Debug, PartialEq, Eq, Structural)]
pub enum ProducerStep {
    /// Create the object, unless it exists.
    Create,
    /// Ask why it was not created.
    CreateError,
    /// Open the object that exists.
    OpenExisting,
    /// Give the new object its size.
    Resize { fd: i32, size: usize },
    /// Map the object.
    MapObject { fd: i32, size: usize, memory: ConnectedMemoryType },
    /// Set the new object to zero bytes.
    Clear { fd: i32, base: usize, size: usize },
    /// Read the fixed head of the object that was found.
    Inspect { fd: i32, base: usize },
    /// Perform the writes that set the fixed head up.
    Initialise { fd: i32, base: usize, memory: ConnectedMemoryType },
    /// Read the number in the slot that is marked as published last.
    ReadMark { fd: i32, base: usize },
    /// Close the descriptor after a failure.
    Close { fd: i32, unlink: bool },
    /// Remove the object's name after a failure.
    Unlink,
    /// Ask for the last error.
    LastError,
    /// The object is set up and mapped at `base`, and `seq` is the number of the
    /// item that was published last in it.
    Connected { fd: i32, base: usize, seq: usize },
    /// There is no connection.
    Failed { error: ShmError },
}

/// A producer's connection under way.
#[derive(Debug)]
pub struct ProducerConnect<T> {
    pub config: QueueConfig,
    pub size: usize,
    pub now: u64,
    pub step: ProducerStep,
    pub payload: PhantomData<T>,
}

/// Whether `reply` is an answer to `step`. A mapping ends before the last address.
pub open spec fn answers_producer(step: ProducerStep, reply: SystemReply) -> bool {
    match step {
        ProducerStep::Create => reply is Descriptor || reply is Refused,
        ProducerStep::CreateError => reply is Error,
        ProducerStep::OpenExisting => reply is Descriptor || reply is Refused,
        ProducerStep::Resize { .. } => reply is Done || reply is Refused,
        ProducerStep::MapObject { size, .. } => reply is Refused || (reply matches SystemReply::Mapped(
            base,
        ) && base + size <= usize::MAX),
        ProducerStep::Inspect { .. } => reply is Head,
        ProducerStep::ReadMark { .. } => reply is Number,
        ProducerStep::LastError => reply is Error,
        ProducerStep::Connected { .. } => false,
        ProducerStep::Failed { .. } => false,
        _ => reply is Done,
    }
}

impl<T> ProducerConnect<T> {
    /// The size is that of an object of this configuration, and where there is a
    /// mapping it has room for it.
    pub open spec fn wf(self) -> bool {
        &&& self.size == object_size::<T>(
            self.config.mode,
            self.config.num_slots as int,
            self.config.max_consumers as int,
        )
        &&& match self.step {
            ProducerStep::MapObject { size, .. } => size == self.size,
            ProducerStep::Clear { base, .. } => base + self.size <= usize::MAX,
            ProducerStep::Inspect { base, .. } => base + self.size <= usize::MAX,
            ProducerStep::Initialise { base, .. } => base + self.size <= usize::MAX,
            ProducerStep::ReadMark { base, .. } => base + self.size <= usize::MAX,
            ProducerStep::Connected { base, .. } => base + self.size <= usize::MAX,
            _ => true,
        }
    }

    /// The call after this one, given what came of it.
    pub open spec fn next_step(self, reply: SystemReply) -> ProducerStep {
        match (self.step, reply) {
            (ProducerStep::Create, SystemReply::Descriptor(fd)) => ProducerStep::Resize {
                fd,
                size: self.size,
            },
            (ProducerStep::Create, _) => ProducerStep::CreateError,
            (ProducerStep::CreateError, SystemReply::Error { code, already_exists }) =>
                if already_exists {
                ProducerStep::OpenExisting
            } else {
                ProducerStep::Failed { error: ShmError::Io(IoFailure::Os(code)) }
            },
            (ProducerStep::OpenExisting, SystemReply::Descriptor(fd)) => ProducerStep::MapObject {
                fd,
                size: self.size,
                memory: ConnectedMemoryType::Old,
            },
            (ProducerStep::OpenExisting, _) => ProducerStep::LastError,
            (ProducerStep::Resize { fd, .. }, SystemReply::Done) => ProducerStep::MapObject {
                fd,
                size: self.size,
                memory: ConnectedMemoryType::New,
            },
            (ProducerStep::Resize { fd, .. }, _) => ProducerStep::Close { fd, unlink: true },
            (ProducerStep::MapObject { fd, memory, .. }, SystemReply::Mapped(base)) => match memory {
                ConnectedMemoryType::New => ProducerStep::Clear { fd, base, size: self.size },
                ConnectedMemoryType::Old => ProducerStep::Inspect { fd, base },
            },
            (ProducerStep::MapObject { fd, memory, .. }, _) => ProducerStep::Close {
                fd,
                unlink: memory == ConnectedMemoryType::New,
            },
            (ProducerStep::Clear { fd, base, .. }, _) => ProducerStep::Initialise {
                fd,
                base,
                memory: ConnectedMemoryType::New,
            },
            (ProducerStep::Inspect { fd, base }, SystemReply::Head(head)) => match takeover_verdict(
                head,
                self.config,
                self.now,
            ) {
                Ok(()) => ProducerStep::Initialise { fd, base, memory: ConnectedMemoryType::Old },
                Err(error) => ProducerStep::Failed { error },
            },
            (ProducerStep::Initialise { fd, base, .. }, _) => ProducerStep::ReadMark { fd, base },
            (ProducerStep::ReadMark { fd, base }, SystemReply::Number(seq)) =>
                ProducerStep::Connected { fd, base, seq },
            (ProducerStep::Close { unlink, .. }, _) => if unlink {
                ProducerStep::Unlink
            } else {
                ProducerStep::LastError
            },
            (ProducerStep::Unlink, _) => ProducerStep::LastError,
            (ProducerStep::LastError, SystemReply::Error { code, .. }) => ProducerStep::Failed {
                error: ShmError::Io(IoFailure::Os(code)),
            },
            (step, _) => step,
        }
    }

    /// Starts a connection, or says with `None` that the object's size cannot be
    /// counted in a word.
    pub fn new(config: QueueConfig, now_timestamp: u64) -> (r: Option<Self>)
        ensures
            ({
                let size = object_size::<T>(
                    config.mode,
                    config.num_slots as int,
                    config.max_consumers as int,
                );
                r == if size <= usize::MAX {
                    Some(
                        ProducerConnect::<T> {
                            config,
                            size: size as usize,
                            now: now_timestamp,
                            step: ProducerStep::Create,
                            payload: PhantomData,
                        },
                    )
                } else {
                    None
                }
            }),
            r is Some ==> r->0.wf(),
    {
        proof {
            lemma_object_size::<T>(
                config.mode,
                config.num_slots as int,
                config.max_consumers as int,
            );
        }
        let size = required_size::<T>(config.mode, config.num_slots, config.max_consumers)?;
        Some(
            ProducerConnect {
                config,
                size,
                now: now_timestamp,
                step: ProducerStep::Create,
                payload: PhantomData,
            },
        )
    }

    /// Goes on after the call, given what came of it.
    pub fn resume(&mut self, reply: SystemReply)
        requires
            old(self).wf(),
            answers_producer(old(self).step, reply),
        ensures
            final(self).wf(),
            *final(self) == (ProducerConnect { step: old(self).next_step(reply), ..*old(self) }),
    {
        self.step = match (self.step, reply) {
            (ProducerStep::Create, SystemReply::Descriptor(fd)) => ProducerStep::Resize {
                fd,
                size: self.size,
            },
            (ProducerStep::Create, _) => ProducerStep::CreateError,
            (ProducerStep::CreateError, SystemReply::Error { code, already_exists }) => {
                if already_exists {
                    ProducerStep::OpenExisting
                } else {
                    ProducerStep::Failed { error: ShmError::from(IoFailure::Os(code)) }
                }
            },
            (ProducerStep::OpenExisting, SystemReply::Descriptor(fd)) => ProducerStep::MapObject {
                fd,
                size: self.size,
                memory: ConnectedMemoryType::Old,
            },
            (ProducerStep::OpenExisting, _) => ProducerStep::LastError,
            (ProducerStep::Resize { fd, .. }, SystemReply::Done) => ProducerStep::MapObject {
                fd,
                size: self.size,
                memory: ConnectedMemoryType::New,
            },
            (ProducerStep::Resize { fd, .. }, _) => ProducerStep::Close { fd, unlink: true },
            (ProducerStep::MapObject { fd, memory, .. }, SystemReply::Mapped(base)) => match memory {
                ConnectedMemoryType::New => ProducerStep::Clear { fd, base, size: self.size },
                ConnectedMemoryType::Old => ProducerStep::Inspect { fd, base },
            },
            (ProducerStep::MapObject { fd, memory, .. }, _) => ProducerStep::Close {
                fd,
                unlink: memory == ConnectedMemoryType::New,
            },
            (ProducerStep::Clear { fd, base, .. }, _) => ProducerStep::Initialise {
                fd,
                base,
                memory: ConnectedMemoryType::New,
            },
            (ProducerStep::Inspect { fd, base }, SystemReply::Head(head)) => {
                match check_takeover(&head, &self.config, self.now) {
                    Ok(()) => ProducerStep::Initialise {
                        fd,
                        base,
                        memory: ConnectedMemoryType::Old,
                    },
                    Err(error) => ProducerStep::Failed { error },
                }
            },
            (ProducerStep::Initialise { fd, base, .. }, _) => ProducerStep::ReadMark { fd, base },
            (ProducerStep::ReadMark { fd, base }, SystemReply::Number(seq)) =>
                ProducerStep::Connected { fd, base, seq },
            (ProducerStep::Close { unlink, .. }, _) => {
                if unlink {
                    ProducerStep::Unlink
                } else {
                    ProducerStep::LastError
                }
            },
            (ProducerStep::Unlink, _) => ProducerStep::LastError,
            (ProducerStep::LastError, SystemReply::Error { code, .. }) => ProducerStep::Failed {
                error: ShmError::from(IoFailure::Os(code)),
            },
            (step, _) => step,
        };
    }

    /// The producer on the object that is mapped at `base` and in which the item
    /// number `seq` was published last.
    pub fn finish(&self, base: usize, seq: usize) -> (r: ShmResult<Producer<T>>)
        requires
            self.wf(),
            base + self.size <= usize::MAX,
        ensures
            if is_pow2(self.config.num_slots as int) {
                r is Ok && is_fresh_producer(
                    r->Ok_0,
                    base as int,
                    self.config,
                    seq,
                    self.now,
                )
            } else {
                r == Err::<Producer<T>, ShmError>(ShmError::LengthNotPowerOfTwo)
            },
    {
        proof {
            lemma_object_size::<T>(
                self.config.mode,
                self.config.num_slots as int,
                self.config.max_consumers as int,
            );
            crate::layout::law_parts_fit_the_object::<T>(
                base as int,
                self.config.mode,
                self.config.num_slots as int,
                self.config.max_consumers as int,
            );
            lemma_slot_layout::<T>();
            assert(self.config.num_slots * crate::queue::slot_size::<T>() >= 0)
                by (nonlinear_arith)
                requires
                    crate::queue::slot_size::<T>() >= 0,
            ;
        }
        let queue_offset = calculate_data_buffer_offset_queue_begin::<T>(
            base,
            self.config.mode,
            self.config.max_consumers,
        );
        Producer::new(&self.config, base, queue_offset, seq, self.now)
    }
}

proof fn lemma_object_size<T>(mode: HeartbeatMode, num_slots: int, max_consumers: int)
    requires
        num_slots >= 0,
        max_consumers >= 0,
    ensures
        0 <= object_size::<T>(mode, 0, max_consumers) <= object_size::<T>(
            mode,
            num_slots,
            max_consumers,
        ),
{
    lemma_slot_layout::<T>();
    assert(crate::queue::slot_size::<T>() * num_slots >= 0) by (nonlinear_arith)
        requires
            num_slots >= 0,
            crate::queue::slot_size::<T>() >= 0,
    ;
    crate::numeric::lemma_round_up(17 + 3 * crate::layout::word_size(), 8);
    crate::numeric::lemma_round_up(16 + 3 * crate::layout::word_size(), 8);
}

/// The call that a consumer's connection wants, or how it ended.
#[derive(Clone, Copy, Debug, PartialEq, Eq, Structural)]
pub enum ConsumerStep {
    /// Open the object.
    Open,
    /// Map the fixed head.
    MapHead { fd: i32, size: usize },
    /// Read the fixed head.
    Inspect { fd: i32, base: usize },
    /// Claim a consumer record of the object with this head.
    Claim { fd: i32, base: usize, head: ShmQueue },
    /// Give up the mapping of the fixed head.
    Unmap { fd: i32, base: usize, head_size: usize, size: usize, id: usize },
    /// Map the whole object.
    MapQueue { fd: i32, size: usize, id: usize },
    /// Read the fixed head of the mapped object.
    Reread { fd: i32, base: usize, size: usize, id: usize },
    /// Read the number in the slot that is marked as published last.
    ReadMark { fd: i32, base: usize, size: usize, id: usize, head: ShmQueue },
    /// Ask for the last error, and keep the answer.
    SaveError { fd: i32 },
    /// Close the descriptor after a failure.
    Close { fd: i32, saved: Option<i32> },
    /// Remove the object's name after a failure.
    Unlink { saved: Option<i32> },
    /// Ask for the last error.
    LastError,
    /// The object is mapped at `base`, the record `id` is claimed, and `last_seq` is
    /// the number in the slot that is marked as published last.
    Connected { fd: i32, base: usize, id: usize, head: ShmQueue, last_seq: usize },
    /// The sizes in the head are beyond what can be counted in a word.
    SizeOverflow,
    /// There is no connection.
    Failed { error: ShmError },
}

/// A consumer's connection under way.
#[derive(Debug)]
pub struct ConsumerConnect<T> {
    pub builder: ConsumerBuilder,
    pub now: u64,
    pub step: ConsumerStep,
    pub payload: PhantomData<T>,
}

/// Whether `reply` is an answer to `step`. A mapping ends before the last address.
pub open spec fn answers_consumer(step: ConsumerStep, reply: SystemReply) -> bool {
    match step {
        ConsumerStep::Open => reply is Descriptor || reply is Refused,
        ConsumerStep::MapHead { size, .. } => reply is Refused || (
        reply matches SystemReply::Mapped(base) && base + size <= usize::MAX),
        ConsumerStep::Inspect { .. } => reply is Head,
        ConsumerStep::Unmap { .. } => reply is Done || reply is Refused,
        ConsumerStep::MapQueue { size, .. } => reply is Refused || (
        reply matches SystemReply::Mapped(base) && base + size <= usize::MAX),
        ConsumerStep::Claim { .. } => reply is Claimed || reply is Refused,
        ConsumerStep::Reread { .. } => reply is Head,
        ConsumerStep::ReadMark { .. } => reply is Number,
        ConsumerStep::SaveError { .. } => reply is Error,
        ConsumerStep::LastError => reply is Error,
        ConsumerStep::Connected { .. } => false,
        ConsumerStep::SizeOverflow => false,
        ConsumerStep::Failed { .. } => false,
        _ => reply is Done,
    }
}

impl<T> ConsumerConnect<T> {
    /// How it goes on once the record `id` is claimed in the object with this head.
    pub open spec fn remap(self, fd: i32, base: usize, head: ShmQueue, id: usize) -> ConsumerStep {
        if mapped_size_spec::<T>(head.header) <= usize::MAX {
            ConsumerStep::Unmap {
                fd,
                base,
                head_size: queue_size_spec(self.builder.mode) as usize,
                size: mapped_size_spec::<T>(head.header) as usize,
                id,
            }
        } else {
            ConsumerStep::SizeOverflow
        }
    }

    /// The call after this one, given what came of it.
    pub open spec fn next_step(self, reply: SystemReply) -> ConsumerStep {
        let builder = self.builder;
        match (self.step, reply) {
            (ConsumerStep::Open, SystemReply::Descriptor(fd)) => ConsumerStep::MapHead {
                fd,
                size: queue_size_spec(builder.mode) as usize,
            },
            (ConsumerStep::Open, _) => ConsumerStep::LastError,
            (ConsumerStep::MapHead { fd, .. }, SystemReply::Mapped(base)) => ConsumerStep::Inspect {
                fd,
                base,
            },
            (ConsumerStep::MapHead { fd, .. }, _) => ConsumerStep::Close { fd, saved: None },
            (ConsumerStep::Inspect { fd, base }, SystemReply::Head(head)) => match attach_verdict(
                head,
                builder.magic,
                builder.version,
                builder.mode,
                builder.liveness_tolerance,
                self.now,
            ) {
                Err(error) => ConsumerStep::Failed { error },
                Ok(()) => if builder.mode == HeartbeatMode::Full {
                    ConsumerStep::Claim { fd, base, head }
                } else {
                    self.remap(fd, base, head, 0)
                },
            },
            (ConsumerStep::Claim { fd, base, head }, SystemReply::Claimed(id)) => match id {
                Some(id) => self.remap(fd, base, head, id),
                None => ConsumerStep::Failed { error: ShmError::MaxConsumerLimitReached },
            },
            (ConsumerStep::Claim { fd, .. }, _) => ConsumerStep::SaveError { fd },
            (ConsumerStep::Unmap { fd, size, id, .. }, SystemReply::Done) => ConsumerStep::MapQueue {
                fd,
                size,
                id,
            },
            (ConsumerStep::Unmap { fd, .. }, _) => ConsumerStep::SaveError { fd },
            (ConsumerStep::MapQueue { fd, size, id }, SystemReply::Mapped(base)) =>
                ConsumerStep::Reread { fd, base, size, id },
            (ConsumerStep::MapQueue { fd, .. }, _) => ConsumerStep::SaveError { fd },
            (ConsumerStep::Reread { fd, base, size, id }, SystemReply::Head(head)) => if base
                + mapped_size_spec::<T>(head.header) <= usize::MAX {
                ConsumerStep::ReadMark { fd, base, size, id, head }
            } else {
                ConsumerStep::SizeOverflow
            },
            (ConsumerStep::ReadMark { fd, base, id, head, .. }, SystemReply::Number(last_seq)) =>
                ConsumerStep::Connected { fd, base, id, head, last_seq },
            (ConsumerStep::SaveError { fd }, SystemReply::Error { code, .. }) =>
                ConsumerStep::Close { fd, saved: Some(code) },
            (ConsumerStep::Close { saved, .. }, _) => ConsumerStep::Unlink { saved },
            (ConsumerStep::Unlink { saved }, _) => match saved {
                Some(code) => ConsumerStep::Failed { error: ShmError::Io(IoFailure::Os(code)) },
                None => ConsumerStep::LastError,
            },
            (ConsumerStep::LastError, SystemReply::Error { code, .. }) => ConsumerStep::Failed {
                error: ShmError::Io(IoFailure::Os(code)),
            },
            (step, _) => step,
        }
    }

    /// Starts a connection.
    pub fn new(builder: ConsumerBuilder, now_timestamp: u64) -> (r: Self)
        ensures
            r == (ConsumerConnect::<T> {
                builder,
                now: now_timestamp,
                step: ConsumerStep::Open,
                payload: PhantomData,
            }),
    {
        ConsumerConnect {
            builder,
            now: now_timestamp,
            step: ConsumerStep::Open,
            payload: PhantomData,
        }
    }

    /// Goes on after the call, given what came of it.
    pub fn resume(&mut self, reply: SystemReply)
        requires
            answers_consumer(old(self).step, reply),
        ensures
            *final(self) == (ConsumerConnect { step: old(self).next_step(reply), ..*old(self) }),
    {
        self.step = match (self.step, reply) {
            (ConsumerStep::Open, SystemReply::Descriptor(fd)) => ConsumerStep::MapHead {
                fd,
                size: queue_size(self.builder.mode),
            },
            (ConsumerStep::Open, _) => ConsumerStep::LastError,
            (ConsumerStep::MapHead { fd, .. }, SystemReply::Mapped(base)) => ConsumerStep::Inspect {
                fd,
                base,
            },
            (ConsumerStep::MapHead { fd, .. }, _) => ConsumerStep::Close { fd, saved: None },
            (ConsumerStep::Inspect { fd, base }, SystemReply::Head(head)) => {
                match check_attach(
                    &head,
                    self.builder.magic,
                    self.builder.version,
                    self.builder.mode,
                    self.builder.liveness_tolerance,
                    self.now,
                ) {
                    Err(error) => ConsumerStep::Failed { error },
                    Ok(()) => {
                        if self.builder.mode == HeartbeatMode::Full {
                            ConsumerStep::Claim { fd, base, head }
                        } else {
                            self.go_on(fd, base, &head, 0)
                        }
                    },
                }
            },
            (ConsumerStep::Claim { fd, base, head }, SystemReply::Claimed(id)) => match id {
                Some(id) => self.go_on(fd, base, &head, id),
                None => ConsumerStep::Failed { error: ShmError::MaxConsumerLimitReached },
            },
            (ConsumerStep::Claim { fd, .. }, _) => ConsumerStep::SaveError { fd },
            (ConsumerStep::Unmap { fd, size, id, .. }, SystemReply::Done) => ConsumerStep::MapQueue {
                fd,
                size,
                id,
            },
            (ConsumerStep::Unmap { fd, .. }, _) => ConsumerStep::SaveError { fd },
            (ConsumerStep::MapQueue { fd, size, id }, SystemReply::Mapped(base)) => {
                ConsumerStep::Reread { fd, base, size, id }
            },
            (ConsumerStep::MapQueue { fd, .. }, _) => ConsumerStep::SaveError { fd },
            (ConsumerStep::Reread { fd, base, size, id }, SystemReply::Head(head)) => {
                match mapped_size::<T>(&head.header) {
                    Some(needed) => if needed <= usize::MAX - base {
                        ConsumerStep::ReadMark { fd, base, size, id, head }
                    } else {
                        ConsumerStep::SizeOverflow
                    },
                    None => ConsumerStep::SizeOverflow,
                }
            },
            (ConsumerStep::ReadMark { fd, base, id, head, .. }, SystemReply::Number(last_seq)) => {
                ConsumerStep::Connected { fd, base, id, head, last_seq }
            },
            (ConsumerStep::SaveError { fd }, SystemReply::Error { code, .. }) => {
                ConsumerStep::Close { fd, saved: Some(code) }
            },
            (ConsumerStep::Close { saved, .. }, _) => ConsumerStep::Unlink { saved },
            (ConsumerStep::Unlink { saved }, _) => match saved {
                Some(code) => ConsumerStep::Failed { error: ShmError::from(IoFailure::Os(code)) },
                None => ConsumerStep::LastError,
            },
            (ConsumerStep::LastError, SystemReply::Error { code, .. }) => ConsumerStep::Failed {
                error: ShmError::from(IoFailure::Os(code)),
            },
            (step, _) => step,
        };
    }

    fn go_on(&self, fd: i32, base: usize, head: &ShmQueue, id: usize) -> (r: ConsumerStep)
        ensures
            r == self.remap(fd, base, *head, id),
    {
        match mapped_size::<T>(&head.header) {
            Some(size) => ConsumerStep::Unmap {
                fd,
                base,
                head_size: queue_size(self.builder.mode),
                size,
                id,
            },
            None => ConsumerStep::SizeOverflow,
        }
    }

    /// The consumer with the record `id` on the object that is mapped at `base` and
    /// has the given head, with the number `last_seq` in the slot that is marked as
    /// published last.
    pub fn finish(&self, base: usize, id: usize, head: &ShmQueue, last_seq: usize) -> (r: ShmResult<
        Consumer<T>,
    >)
        requires
            base + mapped_size_spec::<T>(head.header) <= usize::MAX,
        ensures
            if (base + head.header.queue_offset) % slot_align::<T>() != 0 {
                r == Err::<Consumer<T>, ShmError>(ShmError::UnalignedPtr)
            } else if !is_pow2(head.header.n_slots as int) {
                r == Err::<Consumer<T>, ShmError>(ShmError::LengthNotPowerOfTwo)
            } else {
                r is Ok && self.builder.is_fresh_consumer(
                    r->Ok_0,
                    base as int,
                    head.header,
                    last_seq,
                    id,
                    self.now,
                )
            },
    {
        Consumer::new(&self.builder, base, &head.header, last_seq, id, self.now)
    }
}

/// An object that was found is set up only after its head was read and allows it:
/// in particular never while its producer is alive.
pub proof fn law_found_object_is_checked_before_setup<T>(
    connect: ProducerConnect<T>,
    reply: SystemReply,
)
    requires
        answers_producer(connect.step, reply),
        connect.next_step(reply) matches ProducerStep::Initialise { memory, .. } && memory
            == ConnectedMemoryType::Old,
    ensures
        connect.step is Inspect,
        reply matches SystemReply::Head(head) && takeover_verdict(
            head,
            connect.config,
            connect.now,
        ) is Ok,
{
}

/// A producer removes the name of an object only where it has created that object
/// itself and then failed to size or to map it.
pub proof fn law_producer_unlinks_only_what_it_created<T>(
    connect: ProducerConnect<T>,
    reply: SystemReply,
)
    requires
        answers_producer(connect.step, reply),
    ensures
        connect.next_step(reply) is Unlink ==> (connect.step matches ProducerStep::Close {
            unlink,
            ..
        } && unlink),
        (connect.next_step(reply) matches ProducerStep::Close { unlink, .. } && unlink) ==> reply
            is Refused && (connect.step is Resize || (connect.step matches ProducerStep::MapObject {
            memory,
            ..
        } && memory == ConnectedMemoryType::New)),
{
}

/// Where a new object cannot be given its size, it is closed and its name removed
/// before the system's last error is reported.
pub proof fn law_failed_resize_is_undone<T>(
    connect: ProducerConnect<T>,
    fd: i32,
    size: usize,
    code: i32,
    already_exists: bool,
)
    requires
        connect.step == (ProducerStep::Resize { fd, size }),
    ensures
        ({
            let closing = ProducerConnect {
                step: connect.next_step(SystemReply::Refused),
                ..connect
            };
            let unlinking = ProducerConnect {
                step: closing.next_step(SystemReply::Done),
                ..connect
            };
            let asking = ProducerConnect {
                step: unlinking.next_step(SystemReply::Done),
                ..connect
            };
            &&& closing.step == (ProducerStep::Close { fd, unlink: true })
            &&& unlinking.step == ProducerStep::Unlink
            &&& asking.step == ProducerStep::LastError
            &&& asking.next_step(SystemReply::Error { code, already_exists })
                == (ProducerStep::Failed { error: ShmError::Io(IoFailure::Os(code)) })
        }),
{
}

/// A consumer goes on from reading the head only where that head allows it to
/// attach; otherwise it fails with the reason.
pub proof fn law_consumer_attaches_only_where_allowed<T>(
    connect: ConsumerConnect<T>,
    fd: i32,
    base: usize,
    head: ShmQueue,
)
    requires
        connect.step == (ConsumerStep::Inspect { fd, base }),
    ensures
        ({
            let verdict = attach_verdict(
                head,
                connect.builder.magic,
                connect.builder.version,
                connect.builder.mode,
                connect.builder.liveness_tolerance,
                connect.now,
            );
            let next = connect.next_step(SystemReply::Head(head));
            match verdict {
                Ok(()) => if connect.builder.mode == HeartbeatMode::Full {
                    next == (ConsumerStep::Claim { fd, base, head })
                } else {
                    next is Unmap || next is SizeOverflow
                },
                Err(error) => next == (ConsumerStep::Failed { error }),
            }
        }),
{
}

/// What a call of a producer's connection does where nobody interferes and no call
/// fails, and what comes of it. `object` is what stands under the name; a new object
/// gets the descriptor `fd`, and an object is mapped at `base`.
pub open spec fn perform_producer<T>(
    connect: ProducerConnect<T>,
    object: Option<RegionView<T>>,
    fd: i32,
    base: usize,
    pid: i32,
) -> (Option<RegionView<T>>, SystemReply) {
    let config = connect.config;
    match connect.step {
        ProducerStep::Create => if object is None {
            (
                Some(
                    zero_region(base, config.max_consumers as nat, config.num_slots as nat),
                ),
                SystemReply::Descriptor(fd),
            )
        } else {
            (object, SystemReply::Refused)
        },
        ProducerStep::CreateError => (
            object,
            SystemReply::Error { code: 0, already_exists: object is Some },
        ),
        ProducerStep::OpenExisting => (object, SystemReply::Descriptor(fd)),
        ProducerStep::MapObject { .. } => (object, SystemReply::Mapped(base)),
        ProducerStep::Clear { .. } => (
            Some(zero_region(base, object->0.consumers.len(), object->0.slots.len())),
            SystemReply::Done,
        ),
        ProducerStep::Inspect { .. } => (object, SystemReply::Head(object->0.queue)),
        ProducerStep::Initialise { memory, .. } => {
            let stores = setup_stores::<T>(
                base as int,
                config,
                memory == ConnectedMemoryType::New,
                pid,
                connect.now,
            );
            (
                Some(
                    RegionView {
                        queue: stored_prefix(object->0.queue, stores, stores.len()),
                        ..object->0
                    },
                ),
                SystemReply::Done,
            )
        },
        ProducerStep::ReadMark { .. } => (object, SystemReply::Number(object->0.last_seq())),
        _ => (object, SystemReply::Done),
    }
}

/// The connection and the object after so many such calls.
pub open spec fn run_producer<T>(
    connect: ProducerConnect<T>,
    object: Option<RegionView<T>>,
    fd: i32,
    base: usize,
    pid: i32,
    steps: nat,
) -> (ProducerConnect<T>, Option<RegionView<T>>)
    decreases steps,
{
    if steps == 0 {
        (connect, object)
    } else {
        let (after, reply) = perform_producer(connect, object, fd, base, pid);
        run_producer(
            ProducerConnect { step: connect.next_step(reply), ..connect },
            after,
            fd,
            base,
            pid,
            (steps - 1) as nat,
        )
    }
}

/// A producer's connection that nobody interferes with does what
/// `ProducerBuilder::build` does: it makes an object where there is none, and checks
/// and takes over the one that there is. It ends connected to an object that is set
/// up, with the number that its producer goes on from, or with the reason why the
/// object that it found is not its to take, and with that object as it was.
pub proof fn law_undisturbed_producer_connects<T>(
    config: QueueConfig,
    now: u64,
    object: Option<RegionView<T>>,
    fd: i32,
    base: usize,
    pid: i32,
)
    requires
        object is Some ==> object->0.base == base,
    ensures
        ({
            let connect = ProducerConnect::<T> {
                config,
                size: object_size::<T>(
                    config.mode,
                    config.num_slots as int,
                    config.max_consumers as int,
                ) as usize,
                now,
                step: ProducerStep::Create,
                payload: PhantomData,
            };
            let fresh = zero_region::<T>(
                base,
                config.max_consumers as nat,
                config.num_slots as nat,
            );
            let memory = if object is None {
                ConnectedMemoryType::New
            } else {
                ConnectedMemoryType::Old
            };
            let region = if object is None {
                fresh
            } else {
                object->0
            };
            let (end, after) = run_producer(connect, object, fd, base, pid, 7);
            match takeover_outcome(region, memory, config, now) {
                Ok(()) => {
                    &&& end.step == (ProducerStep::Connected {
                        fd,
                        base,
                        seq: published_before(region, memory),
                    })
                    &&& after == Some(set_up_region(region, memory, config, pid, now))
                },
                Err(error) => {
                    &&& end.step == (ProducerStep::Failed { error })
                    &&& after == object
                },
            }
        }),
{
    reveal_with_fuel(run_producer, 8);
    let fresh = zero_region::<T>(base, config.max_consumers as nat, config.num_slots as nat);
    crate::setup::lemma_setup_stores::<T>(fresh.queue, base as int, config, true, pid, now);
    if object is Some {
        crate::setup::lemma_setup_stores::<T>(
            object->0.queue,
            base as int,
            config,
            false,
            pid,
            now,
        );
    }
}

/// What a call of a consumer's connection does where nobody interferes and no call
/// fails but that to open what does not exist, which has the error `code`.
pub open spec fn perform_consumer<T>(
    connect: ConsumerConnect<T>,
    object: Option<RegionView<T>>,
    fd: i32,
    code: i32,
    head_base: usize,
    base: usize,
    pid: i32,
) -> (Option<RegionView<T>>, SystemReply) {
    match connect.step {
        ConsumerStep::Open => if object is Some {
            (object, SystemReply::Descriptor(fd))
        } else {
            (object, SystemReply::Refused)
        },
        ConsumerStep::MapHead { .. } => (object, SystemReply::Mapped(head_base)),
        ConsumerStep::Inspect { .. } => (object, SystemReply::Head(object->0.queue)),
        ConsumerStep::Claim { .. } => {
            let region = object->0;
            let heartbeats = region.queue.heartbeats;
            let max = heartbeats.consumers.max_consumers as int;
            let free = first_free_from(
                region.consumers,
                0,
                max,
                connect.now,
                connect.builder.liveness_tolerance,
            );
            if free < max {
                (
                    Some(
                        RegionView {
                            queue: ShmQueue {
                                heartbeats: Heartbeats {
                                    consumers: ConsumerHeartbeatsMeta {
                                        prev_consumer: free as usize,
                                        ..heartbeats.consumers
                                    },
                                    ..heartbeats
                                },
                                ..region.queue
                            },
                            consumers: region.consumers.update(
                                free,
                                claimed(region.consumers[free], pid, connect.now),
                            ),
                            ..region
                        },
                    ),
                    SystemReply::Claimed(Some(free as usize)),
                )
            } else {
                (object, SystemReply::Claimed(None))
            }
        },
        ConsumerStep::MapQueue { .. } => (object, SystemReply::Mapped(base)),
        ConsumerStep::Reread { .. } => (object, SystemReply::Head(object->0.queue)),
        ConsumerStep::ReadMark { .. } => (object, SystemReply::Number(object->0.last_seq())),
        ConsumerStep::LastError => (
            object,
            SystemReply::Error { code, already_exists: false },
        ),
        _ => (object, SystemReply::Done),
    }
}

/// The connection and the object after so many such calls.
pub open spec fn run_consumer<T>(
    connect: ConsumerConnect<T>,
    object: Option<RegionView<T>>,
    fd: i32,
    code: i32,
    head_base: usize,
    base: usize,
    pid: i32,
    steps: nat,
) -> (ConsumerConnect<T>, Option<RegionView<T>>)
    decreases steps,
{
    if steps == 0 {
        (connect, object)
    } else {
        let (after, reply) = perform_consumer(connect, object, fd, code, head_base, base, pid);
        run_consumer(
            ConsumerConnect { step: connect.next_step(reply), ..connect },
            after,
            fd,
            code,
            head_base,
            base,
            pid,
            (steps - 1) as nat,
        )
    }
}

/// A consumer's connection that nobody interferes with does what
/// `ConsumerBuilder::build` does: it ends connected, with the same record claimed in
/// the object, or with the same reason why not and with the object as it was. Where
/// there is no object it ends with the system's error.
pub proof fn law_undisturbed_consumer_connects<T>(
    builder: ConsumerBuilder,
    now: u64,
    object: Option<RegionView<T>>,
    fd: i32,
    code: i32,
    head_base: usize,
    base: usize,
    pid: i32,
)
    requires
        object is Some ==> object->0.base == base,
        object is Some && builder.allows(object->0.queue, now) is Ok ==> {
            &&& object->0.wf()
            &&& base + mapped_size_spec::<T>(object->0.queue.header) <= usize::MAX
        },
    ensures
        ({
            let connect = ConsumerConnect::<T> {
                builder,
                now,
                step: ConsumerStep::Open,
                payload: PhantomData,
            };
            let (end, after) = run_consumer(connect, object, fd, code, head_base, base, pid, 8);
            match object {
                None => {
                    &&& end.step == (ConsumerStep::Failed {
                        error: ShmError::Io(IoFailure::Os(code)),
                    })
                    &&& after is None
                },
                Some(region) => match builder.attach_outcome(region, now) {
                    Ok(id) => {
                        let attached = builder.attached_region(region, pid, now);
                        &&& end.step == (ConsumerStep::Connected {
                            fd,
                            base,
                            id,
                            head: attached.queue,
                            last_seq: region.last_seq(),
                        })
                        &&& attached.queue.header == region.queue.header
                        &&& after == Some(attached)
                    },
                    Err(error) => {
                        &&& end.step == (ConsumerStep::Failed { error })
                        &&& after == object
                    },
                },
            }
        }),
{
    let c0 = ConsumerConnect::<T> {
        builder,
        now,
        step: ConsumerStep::Open,
        payload: PhantomData,
    };
    let c1 = lemma_consumer_step(c0, object, fd, code, head_base, base, pid, 7);
    let c2 = lemma_consumer_step(c1, object, fd, code, head_base, base, pid, 6);
    if object is Some {
        let region = object->0;
        lemma_slot_layout::<T>();
        assert(region.queue.header.n_slots * crate::queue::slot_size::<T>() >= 0)
            by (nonlinear_arith)
            requires
                crate::queue::slot_size::<T>() >= 0,
        ;
        crate::heartbeats::lemma_first_free(
            region.consumers,
            0,
            region.queue.heartbeats.consumers.max_consumers as int,
            now,
            builder.liveness_tolerance,
        );
        let c3 = lemma_consumer_step(c2, object, fd, code, head_base, base, pid, 5);
        if c3.step is Failed {
            lemma_ended_consumer(c3, object, fd, code, head_base, base, pid, 5);
        } else if builder.mode == HeartbeatMode::Full {
            let c4 = lemma_consumer_step(c3, object, fd, code, head_base, base, pid, 4);
            if c4.step is Failed {
                lemma_ended_consumer(c4, object, fd, code, head_base, base, pid, 4);
            } else {
                let o4 = perform_consumer(c3, object, fd, code, head_base, base, pid).0;
                assert(o4 == Some(builder.attached_region(region, pid, now)));
                lemma_consumer_remaps(c4, o4, fd, code, head_base, base, pid, 0);
            }
        } else {
            lemma_consumer_remaps(c3, object, fd, code, head_base, base, pid, 1);
        }
    } else {
        lemma_ended_consumer(c2, object, fd, code, head_base, base, pid, 6);
    }
}

/// One call of a run.
proof fn lemma_consumer_step<T>(
    connect: ConsumerConnect<T>,
    object: Option<RegionView<T>>,
    fd: i32,
    code: i32,
    head_base: usize,
    base: usize,
    pid: i32,
    rest: nat,
) -> (next: ConsumerConnect<T>)
    ensures
        ({
            let (after, reply) = perform_consumer(connect, object, fd, code, head_base, base, pid);
            &&& next == (ConsumerConnect { step: connect.next_step(reply), ..connect })
            &&& run_consumer(connect, object, fd, code, head_base, base, pid, rest + 1)
                == run_consumer(next, after, fd, code, head_base, base, pid, rest)
        }),
{
    let (after, reply) = perform_consumer(connect, object, fd, code, head_base, base, pid);
    ConsumerConnect { step: connect.next_step(reply), ..connect }
}

/// A connection that has ended stays as it is.
proof fn lemma_ended_consumer<T>(
    connect: ConsumerConnect<T>,
    object: Option<RegionView<T>>,
    fd: i32,
    code: i32,
    head_base: usize,
    base: usize,
    pid: i32,
    steps: nat,
)
    requires
        connect.step is Failed || connect.step is Connected,
    ensures
        run_consumer(connect, object, fd, code, head_base, base, pid, steps) == (connect, object),
    decreases steps,
{
    if steps > 0 {
        lemma_ended_consumer(connect, object, fd, code, head_base, base, pid, (steps - 1) as nat);
    }
}

/// From the claim on, a connection takes four more calls.
proof fn lemma_consumer_remaps<T>(
    connect: ConsumerConnect<T>,
    object: Option<RegionView<T>>,
    fd: i32,
    code: i32,
    head_base: usize,
    base: usize,
    pid: i32,
    spare: nat,
)
    requires
        object is Some,
        connect.step is Unmap,
        base + mapped_size_spec::<T>(object->0.queue.header) <= usize::MAX,
    ensures
        ({
            let (end, after) = run_consumer(
                connect,
                object,
                fd,
                code,
                head_base,
                base,
                pid,
                4 + spare,
            );
            &&& after == object
            &&& connect.step matches ConsumerStep::Unmap { fd: opened, id, .. } && end.step == (
            ConsumerStep::Connected {
                fd: opened,
                base,
                id,
                head: object->0.queue,
                last_seq: object->0.last_seq(),
            })
        }),
{
    let c1 = lemma_consumer_step(connect, object, fd, code, head_base, base, pid, 3 + spare);
    let c2 = lemma_consumer_step(c1, object, fd, code, head_base, base, pid, 2 + spare);
    let c3 = lemma_consumer_step(c2, object, fd, code, head_base, base, pid, 1 + spare);
    let c4 = lemma_consumer_step(c3, object, fd, code, head_base, base, pid, spare);
    lemma_ended_consumer(c4, object, fd, code, head_base, base, pid, spare);
}

/// That all records are in use is found out before anything else can go wrong: the
/// record is claimed while only the head is mapped.
pub proof fn law_full_queue_is_told_before_mapping<T>(
    connect: ConsumerConnect<T>,
    fd: i32,
    base: usize,
    head: ShmQueue,
)
    requires
        connect.builder.mode == HeartbeatMode::Full,
        connect.step == (ConsumerStep::Inspect { fd, base }),
        attach_verdict(
            head,
            connect.builder.magic,
            connect.builder.version,
            connect.builder.mode,
            connect.builder.liveness_tolerance,
            connect.now,
        ) is Ok,
    ensures
        ({
            let claiming = ConsumerConnect {
                step: connect.next_step(SystemReply::Head(head)),
                ..connect
            };
            &&& claiming.step == (ConsumerStep::Claim { fd, base, head })
            &&& claiming.next_step(SystemReply::Claimed(None)) == (ConsumerStep::Failed {
                error: ShmError::MaxConsumerLimitReached,
            })
        }),
{
}

} // verus!
