//! What a connection has opened, sized and mapped, call by call.
//!
//! A connection asks for calls with sizes, descriptors and addresses in them. Here it
//! is counted along what those calls achieve, so that it can be said which bytes of
//! the object are mapped when a connection looks at them.

use crate::connect::{
    answers_consumer, answers_producer, perform_consumer, perform_producer, ConsumerConnect,
    ConsumerStep, ProducerConnect, ProducerStep, SystemReply,
};
use crate::consumer::{Consumer, ConsumerBuilder};
use crate::error::{IoFailure, ShmError};
use crate::heartbeats::HeartbeatMode;
use crate::layout::{
    consumer_padding, data_offset, object_size, queue_size_spec, ShmHeader, ShmQueue,
};
use crate::producer::ConnectedMemoryType;
use crate::queue::{lemma_slot_layout, slot_size};
use crate::region::RegionView;
use crate::setup::QueueConfig;
use core::marker::PhantomData;
use vstd::prelude::*;

verus! {

/// How far a connection has got: the bytes that it has given the object, and the bytes
/// of the object that are mapped, from the first on.
pub struct Extent {
    pub object: int,
    pub mapped: int,
}

/// What a call of a producer's connection has achieved, given what came of it.
pub open spec fn producer_extent(extent: Extent, step: ProducerStep, reply: SystemReply) -> Extent {
    match (step, reply) {
        (ProducerStep::Create, SystemReply::Descriptor(_)) => Extent { object: 0, ..extent },
        (ProducerStep::Resize { size, .. }, SystemReply::Done) => Extent {
            object: size as int,
            ..extent
        },
        (ProducerStep::MapObject { size, .. }, SystemReply::Mapped(_)) => Extent {
            mapped: size as int,
            ..extent
        },
        _ => extent,
    }
}

/// What is the case where a producer's connection wants `step`: a new object is mapped
/// no further than it reaches, it is cleared where it is mapped, and an object of the
/// connection's configuration lies inside the mapping before anything is read or
/// written in it.
pub open spec fn producer_covered<T>(connect: ProducerConnect<T>, extent: Extent) -> bool {
    let config = connect.config;
    let needed = object_size::<T>(
        config.mode,
        config.num_slots as int,
        config.max_consumers as int,
    );
    match connect.step {
        ProducerStep::Resize { size, .. } => size == needed,
        ProducerStep::MapObject { size, memory, .. } => size == needed && (memory
            == ConnectedMemoryType::New ==> extent.object == needed),
        ProducerStep::Clear { size, .. } => size == needed && extent.mapped == needed
            && extent.object == needed,
        ProducerStep::Initialise { memory, .. } => extent.mapped == needed && (memory
            == ConnectedMemoryType::New ==> extent.object == needed),
        ProducerStep::Inspect { .. } => extent.mapped == needed,
        ProducerStep::ReadMark { .. } => extent.mapped == needed,
        ProducerStep::Connected { .. } => extent.mapped == needed,
        _ => true,
    }
}

/// Whatever comes of the calls, a producer's connection resizes a new object to the
/// size of its configuration, maps just that, and never looks at an object or writes
/// to one without having all of it mapped.
pub proof fn law_producer_stays_inside_the_object<T>(
    connect: ProducerConnect<T>,
    extent: Extent,
    reply: SystemReply,
)
    requires
        connect.wf(),
        producer_covered(connect, extent),
        answers_producer(connect.step, reply),
    ensures
        producer_covered(
            ProducerConnect { step: connect.next_step(reply), ..connect },
            producer_extent(extent, connect.step, reply),
        ),
{
}

/// All parts of an object that a producer's connection has mapped lie inside the
/// mapping: the fixed head, each consumer record, and each slot.
pub proof fn law_producer_maps_every_part<T>(
    connect: ProducerConnect<T>,
    extent: Extent,
    base: int,
    record: int,
    slot: int,
)
    requires
        connect.wf(),
        producer_covered(connect, extent),
        connect.step is Initialise || connect.step is ReadMark || connect.step is Connected,
        base >= 0,
        0 <= record < connect.config.max_consumers,
        0 <= slot < connect.config.num_slots,
    ensures
        ({
            let mode = connect.config.mode;
            let max = connect.config.max_consumers as int;
            let data = data_offset::<T>(base, mode, max);
            &&& queue_size_spec(mode) <= data
            &&& mode == HeartbeatMode::Full ==> {
                let first = queue_size_spec(mode) + consumer_padding(base);
                &&& (base + first) % 8 == 0
                &&& first + (record + 1) * 24 <= data
            }
            &&& data + (slot + 1) * slot_size::<T>() <= extent.mapped
        }),
{
    let config = connect.config;
    crate::layout::law_parts_fit_the_object::<T>(
        base,
        config.mode,
        config.num_slots as int,
        config.max_consumers as int,
    );
    lemma_slot_layout::<T>();
    lemma_within(record, config.max_consumers as int, 24);
    lemma_within(slot, config.num_slots as int, slot_size::<T>());
}

proof fn lemma_within(index: int, count: int, size: int)
    requires
        0 <= index < count,
        size >= 0,
    ensures
        (index + 1) * size <= count * size,
{
    assert((index + 1) * size <= count * size) by (nonlinear_arith)
        requires
            0 <= index < count,
            size >= 0,
    ;
}

/// The descriptor that a step of a producer's connection works on.
pub open spec fn producer_descriptor(step: ProducerStep) -> Option<i32> {
    match step {
        ProducerStep::Resize { fd, .. } => Some(fd),
        ProducerStep::MapObject { fd, .. } => Some(fd),
        ProducerStep::Clear { fd, .. } => Some(fd),
        ProducerStep::Inspect { fd, .. } => Some(fd),
        ProducerStep::Initialise { fd, .. } => Some(fd),
        ProducerStep::ReadMark { fd, .. } => Some(fd),
        ProducerStep::Close { fd, .. } => Some(fd),
        ProducerStep::Connected { fd, .. } => Some(fd),
        _ => None,
    }
}

/// The address that a step of a producer's connection works at.
pub open spec fn producer_address(step: ProducerStep) -> Option<usize> {
    match step {
        ProducerStep::Clear { base, .. } => Some(base),
        ProducerStep::Inspect { base, .. } => Some(base),
        ProducerStep::Initialise { base, .. } => Some(base),
        ProducerStep::ReadMark { base, .. } => Some(base),
        ProducerStep::Connected { base, .. } => Some(base),
        _ => None,
    }
}

/// A producer's connection works on the descriptor that it was given and at the address
/// that it was given, and on no other: what a step works on is what the step before
/// worked on, or what has just come back.
pub proof fn law_producer_works_on_what_it_was_given<T>(
    connect: ProducerConnect<T>,
    reply: SystemReply,
)
    requires
        answers_producer(connect.step, reply),
    ensures
        ({
            let next = connect.next_step(reply);
            &&& producer_descriptor(next) matches Some(fd) ==> {
                ||| producer_descriptor(connect.step) == Some(fd)
                ||| producer_descriptor(connect.step) is None && reply == SystemReply::Descriptor(
                    fd,
                )
            }
            &&& producer_address(next) matches Some(base) ==> {
                ||| producer_address(connect.step) == Some(base)
                ||| producer_address(connect.step) is None && reply == SystemReply::Mapped(base)
            }
            &&& next matches ProducerStep::Connected { seq, .. } ==> reply == SystemReply::Number(
                seq,
            )
            &&& reply is Descriptor ==> producer_descriptor(next) is Some
            &&& reply is Mapped ==> producer_address(next) is Some
        }),
{
}

/// A producer's connection fails only for a reason: with the code of the error that the
/// system reports, or because of what it has read in the object. Every error code ends
/// it, except that of an object that exists already, which is then opened instead.
pub proof fn law_producer_fails_for_a_reason<T>(connect: ProducerConnect<T>, reply: SystemReply)
    requires
        answers_producer(connect.step, reply),
    ensures
        ({
            let next = connect.next_step(reply);
            &&& next is Failed ==> reply is Error || (reply is Head && connect.step is Inspect)
            &&& reply matches SystemReply::Error { code, already_exists } ==> if connect.step
                is CreateError && already_exists {
                next is OpenExisting
            } else {
                next == (ProducerStep::Failed { error: ShmError::Io(IoFailure::Os(code)) })
            }
            &&& next is OpenExisting ==> reply is Error && connect.step is CreateError
        }),
{
}

/// Where a call is refused, a producer's connection leaves nothing behind: the
/// descriptor that it holds is closed next, and the name of an object that it has
/// created itself is removed after that, before the system is asked for the error.
pub proof fn law_producer_cleans_up<T>(connect: ProducerConnect<T>, reply: SystemReply)
    requires
        answers_producer(connect.step, reply),
    ensures
        ({
            let next = connect.next_step(reply);
            &&& reply is Refused ==> match producer_descriptor(connect.step) {
                Some(fd) => next matches ProducerStep::Close { fd: closed, unlink } && closed == fd
                    && unlink == (connect.step is Resize || (connect.step matches
                    ProducerStep::MapObject { memory, .. } && memory == ConnectedMemoryType::New)),
                None => next is CreateError && connect.step is Create || next is LastError
                    && connect.step is OpenExisting,
            }
            &&& next is Close ==> reply is Refused
            &&& connect.step matches ProducerStep::Close { unlink, .. } ==> if unlink {
                next is Unlink
            } else {
                next is LastError
            }
            &&& connect.step is Unlink ==> next is LastError
            &&& next is LastError ==> connect.step is Close || connect.step is Unlink
                || connect.step is OpenExisting
        }),
{
}

/// A new object is cleared and set up as new; one that was found is set up as found,
/// and never cleared.
pub proof fn law_found_object_is_not_cleared<T>(connect: ProducerConnect<T>, reply: SystemReply)
    requires
        answers_producer(connect.step, reply),
    ensures
        ({
            let next = connect.next_step(reply);
            &&& next matches ProducerStep::MapObject { memory, .. } ==> (memory
                == ConnectedMemoryType::New <==> connect.step is Resize)
            &&& next is Clear <==> reply is Mapped && (connect.step matches
                ProducerStep::MapObject { memory, .. } && memory == ConnectedMemoryType::New)
            &&& next is Inspect <==> reply is Mapped && (connect.step matches
                ProducerStep::MapObject { memory, .. } && memory == ConnectedMemoryType::Old)
            &&& next matches ProducerStep::Initialise { memory, .. } ==> (memory
                == ConnectedMemoryType::New <==> connect.step is Clear)
            &&& connect.step is Clear ==> next is Initialise
            &&& connect.step is Initialise ==> next is ReadMark
            &&& connect.step is ReadMark ==> next is Connected
            &&& next is Resize <==> connect.step is Create && reply is Descriptor
        }),
{
}

/// What a consumer's connection has mapped after a call, given what came of it.
pub open spec fn consumer_mapped(mapped: int, step: ConsumerStep, reply: SystemReply) -> int {
    match (step, reply) {
        (ConsumerStep::MapHead { size, .. }, SystemReply::Mapped(_)) => size as int,
        (ConsumerStep::Unmap { .. }, SystemReply::Done) => 0,
        (ConsumerStep::MapQueue { size, .. }, SystemReply::Mapped(_)) => size as int,
        _ => mapped,
    }
}

/// What is the case where a consumer's connection wants a step: the fixed head is
/// mapped while it is read and a record is claimed, all of that mapping is given up
/// before the whole is mapped, and then the whole is.
pub open spec fn consumer_covered<T>(connect: ConsumerConnect<T>, mapped: int) -> bool {
    let head_size = queue_size_spec(connect.builder.mode);
    match connect.step {
        ConsumerStep::Open => mapped == 0,
        ConsumerStep::MapHead { size, .. } => mapped == 0 && size == head_size,
        ConsumerStep::Inspect { .. } => mapped == head_size,
        ConsumerStep::Claim { .. } => mapped == head_size,
        ConsumerStep::Unmap { head_size: given_up, .. } => mapped == head_size && given_up
            == head_size,
        ConsumerStep::MapQueue { .. } => mapped == 0,
        ConsumerStep::Reread { size, .. } => mapped == size,
        ConsumerStep::ReadMark { size, .. } => mapped == size,
        _ => true,
    }
}

/// Whatever comes of the calls, a consumer's connection has mapped what it looks at:
/// the fixed head first, and after that as many bytes as it has asked for.
pub proof fn law_consumer_stays_inside_the_mapping<T>(
    connect: ConsumerConnect<T>,
    mapped: int,
    reply: SystemReply,
)
    requires
        consumer_covered(connect, mapped),
        answers_consumer(connect.step, reply),
    ensures
        consumer_covered(
            ConsumerConnect { step: connect.next_step(reply), ..connect },
            consumer_mapped(mapped, connect.step, reply),
        ),
{
    lemma_head_fits_word(connect.builder.mode);
}

proof fn lemma_head_fits_word(mode: HeartbeatMode)
    ensures
        0 < queue_size_spec(mode) <= 88,
{
    crate::layout::law_head_in_bytes();
}

/// The head that a consumer's connection goes by when it asks for the whole mapping:
/// the one that it has just read, or the one in which it has claimed a record.
pub open spec fn consulted_head(step: ConsumerStep, reply: SystemReply) -> Option<ShmQueue> {
    match (step, reply) {
        (ConsumerStep::Inspect { .. }, SystemReply::Head(head)) => Some(head),
        (ConsumerStep::Claim { head, .. }, SystemReply::Claimed(Some(_))) => Some(head),
        _ => None,
    }
}

/// A consumer's connection that has looked at the head asks for a mapping that ends
/// where the ring ends, so that each of its slots lies inside it, and keeps to that
/// size until it is connected. It gives up only where that size is beyond a word.
pub proof fn law_consumer_maps_the_whole_ring<T>(
    connect: ConsumerConnect<T>,
    reply: SystemReply,
    slot: int,
)
    requires
        answers_consumer(connect.step, reply),
    ensures
        ({
            let next = connect.next_step(reply);
            &&& next matches ConsumerStep::Unmap { fd, base, size, id, .. } ==> {
                &&& consulted_head(connect.step, reply) matches Some(head) && {
                    let header = head.header;
                    &&& size == header.queue_offset + header.n_slots * slot_size::<T>()
                    &&& 0 <= slot < header.n_slots ==> header.queue_offset + (slot + 1)
                        * slot_size::<T>() <= size
                }
                &&& reply is Head ==> id == 0 && connect.builder.mode != HeartbeatMode::Full
                &&& reply is Claimed ==> reply == SystemReply::Claimed(Some(id))
                &&& consumer_address(connect.step) == Some(base)
            }
            &&& next matches ConsumerStep::MapQueue { size, id, .. } ==> (connect.step matches
                ConsumerStep::Unmap { size: wanted, id: claimed, .. } && size == wanted && id
                == claimed)
            &&& next matches ConsumerStep::Reread { size, id, .. } ==> (connect.step matches
                ConsumerStep::MapQueue { size: wanted, id: claimed, .. } && size == wanted && id
                == claimed)
            &&& next matches ConsumerStep::ReadMark { size, id, head, .. } ==> {
                &&& reply == SystemReply::Head(head)
                &&& connect.step matches ConsumerStep::Reread { size: wanted, id: claimed, .. }
                    && size == wanted && id == claimed
            }
            &&& next matches ConsumerStep::Connected { id, head, last_seq, .. } ==> {
                &&& reply == SystemReply::Number(last_seq)
                &&& connect.step matches ConsumerStep::ReadMark { id: claimed, head: reread, .. }
                    && id == claimed && head == reread
            }
            &&& next is SizeOverflow && !(connect.step is SizeOverflow) ==> {
                ||| consulted_head(connect.step, reply) matches Some(head)
                    && head.header.queue_offset + head.header.n_slots * slot_size::<T>()
                    > usize::MAX
                ||| connect.step matches ConsumerStep::Reread { base, .. } && reply matches
                    SystemReply::Head(head) && base + head.header.queue_offset
                    + head.header.n_slots * slot_size::<T>() > usize::MAX
            }
            &&& connect.step matches ConsumerStep::Reread { base, .. } ==> (reply matches
                SystemReply::Head(head) && (next is SizeOverflow <==> base
                + head.header.queue_offset + head.header.n_slots * slot_size::<T>() > usize::MAX))
            &&& reply is Claimed && reply != SystemReply::Claimed(None) ==> next is Unmap || next
                is SizeOverflow
        }),
{
    lemma_slot_layout::<T>();
    if consulted_head(connect.step, reply) is Some && 0 <= slot < consulted_head(
        connect.step,
        reply,
    )->0.header.n_slots {
        lemma_within(
            slot,
            consulted_head(connect.step, reply)->0.header.n_slots as int,
            slot_size::<T>(),
        );
    }
}

/// The descriptor that a step of a consumer's connection works on.
pub open spec fn consumer_descriptor(step: ConsumerStep) -> Option<i32> {
    match step {
        ConsumerStep::MapHead { fd, .. } => Some(fd),
        ConsumerStep::Inspect { fd, .. } => Some(fd),
        ConsumerStep::Claim { fd, .. } => Some(fd),
        ConsumerStep::Unmap { fd, .. } => Some(fd),
        ConsumerStep::MapQueue { fd, .. } => Some(fd),
        ConsumerStep::Reread { fd, .. } => Some(fd),
        ConsumerStep::ReadMark { fd, .. } => Some(fd),
        ConsumerStep::SaveError { fd } => Some(fd),
        ConsumerStep::Close { fd, .. } => Some(fd),
        ConsumerStep::Connected { fd, .. } => Some(fd),
        _ => None,
    }
}

/// The address that a step of a consumer's connection works at.
pub open spec fn consumer_address(step: ConsumerStep) -> Option<usize> {
    match step {
        ConsumerStep::Inspect { base, .. } => Some(base),
        ConsumerStep::Claim { base, .. } => Some(base),
        ConsumerStep::Unmap { base, .. } => Some(base),
        ConsumerStep::Reread { base, .. } => Some(base),
        ConsumerStep::ReadMark { base, .. } => Some(base),
        ConsumerStep::Connected { base, .. } => Some(base),
        _ => None,
    }
}

/// A consumer's connection works on the descriptor that it was given and at the
/// address that it was given: what a step works on is what the step before worked on,
/// or what has just come back.
pub proof fn law_consumer_works_on_what_it_was_given<T>(
    connect: ConsumerConnect<T>,
    reply: SystemReply,
)
    requires
        answers_consumer(connect.step, reply),
    ensures
        ({
            let next = connect.next_step(reply);
            &&& consumer_descriptor(next) matches Some(fd) ==> {
                ||| consumer_descriptor(connect.step) == Some(fd)
                ||| consumer_descriptor(connect.step) is None && reply == SystemReply::Descriptor(
                    fd,
                )
            }
            &&& consumer_address(next) matches Some(base) ==> {
                ||| consumer_address(connect.step) == Some(base)
                ||| consumer_address(connect.step) is None && reply == SystemReply::Mapped(base)
            }
            &&& next matches ConsumerStep::Claim { head, .. } ==> reply == SystemReply::Head(head)
            &&& reply is Descriptor ==> consumer_descriptor(next) is Some
            &&& reply is Mapped ==> consumer_address(next) is Some
        }),
{
}

/// A consumer's connection fails only for a reason: with the code that the system
/// reports, because of what it has read in the object, or because no record was free.
/// Where the system refuses a call after something was opened, the descriptor is closed
/// and the name removed before the failure is told, with the first error code that was
/// asked for.
pub proof fn law_consumer_fails_for_a_reason<T>(connect: ConsumerConnect<T>, reply: SystemReply)
    requires
        answers_consumer(connect.step, reply),
    ensures
        ({
            let next = connect.next_step(reply);
            &&& next is Failed ==> {
                ||| reply is Head && connect.step is Inspect
                ||| reply == SystemReply::Claimed(None) && next == (ConsumerStep::Failed {
                    error: ShmError::MaxConsumerLimitReached,
                })
                ||| reply matches SystemReply::Error { code, .. } && next == (
                ConsumerStep::Failed { error: ShmError::Io(IoFailure::Os(code)) })
                ||| connect.step matches ConsumerStep::Unlink { saved } && saved matches Some(code)
                    && next == (ConsumerStep::Failed { error: ShmError::Io(IoFailure::Os(code)) })
            }
            &&& reply == SystemReply::Claimed(None) ==> next is Failed
            &&& reply is Refused ==> match connect.step {
                ConsumerStep::Open => next is LastError,
                ConsumerStep::MapHead { fd, .. } => next == (ConsumerStep::Close { fd, saved: None }),
                _ => next is SaveError,
            }
            &&& reply matches SystemReply::Error { code, .. } ==> match connect.step {
                ConsumerStep::SaveError { fd } => next == (ConsumerStep::Close {
                    fd,
                    saved: Some(code),
                }),
                _ => next is Failed,
            }
            &&& connect.step matches ConsumerStep::Close { saved, .. } ==> next == (
            ConsumerStep::Unlink { saved })
            &&& connect.step matches ConsumerStep::Unlink { saved } ==> (saved is None <==> next
                is LastError)
            &&& next is Close || next is SaveError || next is LastError ==> reply is Refused
                || connect.step is SaveError || connect.step is Unlink
        }),
{
}

/// The ring of a consumer lies inside what it has mapped, slot by slot, and what it has
/// mapped ends with the ring.
pub proof fn law_consumer_ring_is_mapped<T>(
    builder: ConsumerBuilder,
    consumer: Consumer<T>,
    base: int,
    header: ShmHeader,
    last_seq: usize,
    id: usize,
    now: u64,
    slot: int,
)
    requires
        builder.is_fresh_consumer(consumer, base, header, last_seq, id, now),
        0 <= slot <= consumer.read_handle.queue.len_mask,
    ensures
        base <= consumer.read_handle.queue.buf + slot * slot_size::<T>(),
        consumer.read_handle.queue.buf + (slot + 1) * slot_size::<T>() <= base
            + consumer.mmap_size,
        slot == consumer.read_handle.queue.len_mask ==> consumer.read_handle.queue.buf + (slot + 1)
            * slot_size::<T>() == base + consumer.mmap_size,
{
    lemma_slot_layout::<T>();
    lemma_within(slot, header.n_slots as int, slot_size::<T>());
    assert(slot * slot_size::<T>() >= 0) by (nonlinear_arith)
        requires
            slot >= 0,
            slot_size::<T>() >= 0,
    ;
}

/// What a consumer's connection that nobody interferes with has mapped after so many
/// calls.
pub open spec fn run_consumer_mapped<T>(
    connect: ConsumerConnect<T>,
    object: Option<RegionView<T>>,
    fd: i32,
    code: i32,
    head_base: usize,
    base: usize,
    pid: i32,
    mapped: int,
    steps: nat,
) -> int
    decreases steps,
{
    if steps == 0 {
        mapped
    } else {
        let (after, reply) = perform_consumer(connect, object, fd, code, head_base, base, pid);
        run_consumer_mapped(
            ConsumerConnect { step: connect.next_step(reply), ..connect },
            after,
            fd,
            code,
            head_base,
            base,
            pid,
            consumer_mapped(mapped, connect.step, reply),
            (steps - 1) as nat,
        )
    }
}

/// A consumer's connection that nobody interferes with and that succeeds has mapped the
/// object up to the end of its ring, and no further.
pub proof fn law_undisturbed_consumer_maps_the_ring<T>(
    builder: ConsumerBuilder,
    now: u64,
    region: RegionView<T>,
    fd: i32,
    code: i32,
    head_base: usize,
    base: usize,
    pid: i32,
)
    requires
        region.base == base,
        region.wf(),
        builder.attach_outcome(region, now) is Ok,
        base + region.queue.header.queue_offset + region.queue.header.n_slots * slot_size::<T>()
            <= usize::MAX,
    ensures
        run_consumer_mapped(
            ConsumerConnect::<T> {
                builder,
                now,
                step: ConsumerStep::Open,
                payload: PhantomData,
            },
            Some(region),
            fd,
            code,
            head_base,
            base,
            pid,
            0,
            8,
        ) == region.queue.header.queue_offset + region.queue.header.n_slots * slot_size::<T>(),
{
    reveal_with_fuel(run_consumer_mapped, 9);
    lemma_slot_layout::<T>();
    assert(region.queue.header.n_slots * slot_size::<T>() >= 0) by (nonlinear_arith)
        requires
            slot_size::<T>() >= 0,
    ;
    crate::heartbeats::lemma_first_free(
        region.consumers,
        0,
        region.queue.heartbeats.consumers.max_consumers as int,
        now,
        builder.liveness_tolerance,
    );
}

/// What a producer's connection that nobody interferes with has achieved after so many
/// calls.
pub open spec fn run_producer_extent<T>(
    connect: ProducerConnect<T>,
    object: Option<RegionView<T>>,
    fd: i32,
    base: usize,
    pid: i32,
    extent: Extent,
    steps: nat,
) -> Extent
    decreases steps,
{
    if steps == 0 {
        extent
    } else {
        let (after, reply) = perform_producer(connect, object, fd, base, pid);
        run_producer_extent(
            ProducerConnect { step: connect.next_step(reply), ..connect },
            after,
            fd,
            base,
            pid,
            producer_extent(extent, connect.step, reply),
            (steps - 1) as nat,
        )
    }
}

/// A producer's connection that nobody interferes with maps as many bytes as an object
/// of its configuration has; where there was no object, it has made one of as many
/// bytes.
pub proof fn law_undisturbed_producer_maps_the_object<T>(
    config: QueueConfig,
    now: u64,
    object: Option<RegionView<T>>,
    fd: i32,
    base: usize,
    pid: i32,
    bytes: int,
)
    requires
        object_size::<T>(config.mode, config.num_slots as int, config.max_consumers as int)
            <= usize::MAX,
    ensures
        ({
            let size = object_size::<T>(
                config.mode,
                config.num_slots as int,
                config.max_consumers as int,
            );
            let end = run_producer_extent(
                ProducerConnect::<T> {
                    config,
                    size: size as usize,
                    now,
                    step: ProducerStep::Create,
                    payload: PhantomData,
                },
                object,
                fd,
                base,
                pid,
                Extent { object: bytes, mapped: 0 },
                7,
            );
            &&& end.mapped == size
            &&& end.object == if object is None {
                size
            } else {
                bytes
            }
        }),
{
    reveal_with_fuel(run_producer_extent, 8);
    lemma_slot_layout::<T>();
    crate::layout::law_parts_fit_the_object::<T>(
        0,
        config.mode,
        config.num_slots as int,
        config.max_consumers as int,
    );
    crate::layout::law_head_in_bytes();
    assert(config.num_slots * slot_size::<T>() >= 0) by (nonlinear_arith)
        requires
            slot_size::<T>() >= 0,
    ;
}

} // verus!
