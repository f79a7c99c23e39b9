//! What producers and consumers of a queue can count on, in terms of what they see:
//! timestamps, bytes of the object, and the stream of published items.
//!
//! Nothing here goes by the conditions that the operations are written with. A due
//! check is so much time gone by, a live consumer is a record that holds a recent
//! timestamp, and what a read returns is an item of the stream.

use crate::consumer::{Consumer, ConsumerBuilder};
use crate::error::{ShmError, ShmResult};
use crate::heartbeats::{
    alive_at, free, free_at, in_use_at, live, ConsumerHeartbeat, HeartbeatMode,
};
use crate::history::{caught_up_to, newest_in_slot, region_holds};
use crate::layout::{object_size, queue_size_spec, ShmHeader, ShmState};
use crate::producer::{
    is_fresh_producer, published_before, set_up_region, takeover_outcome, ConnectedMemoryType,
    Producer,
};
use crate::queue::{
    lemma_slot_layout, slot_align, slot_size, BroadCastQueue, BroadcastReadHandle,
    BroadcastWriteHandle, Slot,
};
use crate::region::RegionView;
use crate::setup::QueueConfig;
use vstd::prelude::*;

verus! {

/// A timestamp that is not recent: at least the tolerance has gone by since. Where
/// nothing is tolerated none is.
pub open spec fn is_stale(beat: u64, now: u64, tolerance: u64) -> bool {
    tolerance == 0 || now - beat >= tolerance
}

/// The reader looks for item number `number` next. It has read the item before it, or
/// nothing yet, in which case that item is already published.
pub open spec fn looks_for<T>(
    reader: BroadcastReadHandle<T>,
    number: int,
    published: int,
) -> bool {
    &&& 0 < number <= usize::MAX
    &&& reader.cursor == (number - 1) % reader.queue.slot_count()
    &&& number <= published + 1
    &&& reader.seq == number - 1 || (reader.seq == 0 && number <= published)
}

/// A consumer that looks for item `number` of the stream gets it as long as the ring
/// still holds it. Where the ring has gone on it gets a later one, one of the last
/// that the ring holds, and goes on from there. It is told that there is no data
/// exactly where item `number` is not published yet, and then stays where it is.
pub proof fn law_consumer_follows_stream<T>(
    region: RegionView<T>,
    stream: Seq<T>,
    consumer: Consumer<T>,
    number: int,
    after: Consumer<T>,
    result: ShmResult<&T>,
)
    requires
        region_holds(region, stream),
        region.slots.len() <= usize::MAX,
        region.slots.len() == consumer.read_handle.queue.slot_count(),
        looks_for(consumer.read_handle, number, stream.len() as int),
        consumer.reads(region, after, result),
    ensures
        result == Err::<&T, ShmError>(ShmError::NoData) <==> number > stream.len(),
        number > stream.len() ==> after == consumer,
        number <= stream.len() ==> {
            let got = region.slots[consumer.read_handle.cursor as int].seq as int;
            &&& number <= got <= stream.len()
            &&& stream.len() - region.slots.len() < got
            &&& stream.len() < number + region.slots.len() ==> got == number
            &&& (got - number) % region.slots.len() as int == 0
            &&& result == Ok::<&T, ShmError>(&stream[got - 1])
            &&& caught_up_to(after.read_handle, got)
            &&& looks_for(after.read_handle, got + 1, stream.len() as int) || got == usize::MAX
            &&& after.read_handle.queue == consumer.read_handle.queue
            &&& after == (Consumer { read_handle: after.read_handle, ..consumer })
        },
{
    let n = region.slots.len() as int;
    let k = stream.len() as int;
    let cursor = consumer.read_handle.cursor as int;
    vstd::arithmetic::div_mod::lemma_mod_bound(number - 1, n);
    if k > cursor {
        crate::history::lemma_newest(cursor, k, n);
        let got = newest_in_slot(cursor, k, n);
        if number > k {
            // The slot holds an item of the round before, if any.
            assert(got <= number - 1);
        } else {
            lemma_not_before(number, got, k, n);
        }
    } else if number <= k {
        vstd::arithmetic::div_mod::lemma_small_mod(
            (number - 1) as nat,
            n as nat,
        );
    }
}

/// Of two numbers that fall into the same slot, the newest published one is not the
/// smaller.
proof fn lemma_not_before(number: int, got: int, count: int, n: int)
    requires
        n > 0,
        count - n < got <= count,
        0 < number <= count,
        (number - 1) % n == (got - 1) % n,
    ensures
        number <= got,
        (got - number) % n == 0,
        count < number + n ==> got == number,
{
    vstd::arithmetic::div_mod::lemma_fundamental_div_mod(number - 1, n);
    vstd::arithmetic::div_mod::lemma_fundamental_div_mod(got - 1, n);
    let q = (got - 1) / n - (number - 1) / n;
    assert(got - number == n * q) by (nonlinear_arith)
        requires
            got - 1 == n * ((got - 1) / n) + (got - 1) % n,
            number - 1 == n * ((number - 1) / n) + (number - 1) % n,
            (number - 1) % n == (got - 1) % n,
            q == (got - 1) / n - (number - 1) / n,
    ;
    assert(q >= 0) by (nonlinear_arith)
        requires
            n * q > -n,
            n > 0,
    ;
    assert(n * q >= 0) by (nonlinear_arith)
        requires
            q >= 0,
            n > 0,
    ;
    assert(n * q < n ==> q == 0) by (nonlinear_arith)
        requires
            q >= 0,
            n > 0,
    ;
    assert(n * q == q * n) by (nonlinear_arith);
    vstd::arithmetic::div_mod::lemma_mod_multiples_basic(q, n);
}

/// A consumer that reads keeps watch, however seldom it reads. Where more than half
/// the tolerance has gone by since its last look at the producer, it looks again: a
/// producer whose last sign of life is stale is reported, and nothing else happens;
/// otherwise the consumer gives a sign of life itself and remembers when. So after
/// every read that does not report a dead producer the last look is at most half the
/// tolerance back. A read changes nothing else in the object.
pub proof fn law_reading_keeps_watch<T>(
    region: RegionView<T>,
    consumer: Consumer<T>,
    now: u64,
    after: Consumer<T>,
    after_region: RegionView<T>,
    result: ShmResult<&T>,
)
    requires
        consumer.wf(region),
        consumer.mode != HeartbeatMode::Disabled ==> now >= consumer.last_liveness_check,
        consumer.tried(region, now, after, after_region, result),
    ensures
        ({
            let tolerance = consumer.liveness_tolerance;
            let beats = consumer.mode != HeartbeatMode::Disabled;
            let late = beats && now - consumer.last_liveness_check > tolerance / 2;
            let dead = is_stale(
                region.queue.heartbeats.producer.heartbeat.last_update_us,
                now,
                tolerance,
            );
            let recorded = consumer.mode == HeartbeatMode::Full && consumer.id
                < region.queue.heartbeats.consumers.max_consumers;
            let id = consumer.id as int;
            &&& result == Err::<&T, ShmError>(ShmError::NoActiveProducer) <==> late && dead
            &&& late && dead ==> after == consumer
            &&& late && !dead ==> after.last_liveness_check == now
            &&& !late ==> after.last_liveness_check == consumer.last_liveness_check
            &&& beats && !(late && dead) ==> now - after.last_liveness_check <= tolerance / 2
            &&& after.liveness_tolerance == tolerance
            &&& after.mode == consumer.mode
            &&& after.id == consumer.id
            &&& after.mmap_size == consumer.mmap_size
            &&& after_region.base == region.base
            &&& after_region.queue == region.queue
            &&& after_region.slots == region.slots
            &&& after_region.consumers.len() == region.consumers.len()
            &&& forall|i: int|
                0 <= i < region.consumers.len() && !(late && !dead && recorded && i == id)
                    ==> #[trigger] after_region.consumers[i] == region.consumers[i]
            &&& late && !dead && recorded ==> {
                &&& after_region.consumers[id].heartbeat.last_update_us == now
                &&& after_region.consumers[id].heartbeat.pid == region.consumers[id].heartbeat.pid
                &&& after_region.consumers[id].sequence == region.consumers[id].sequence
            }
        }),
{
}

/// What a read at any time returns of the stream: unless it reports a dead producer, it
/// returns item `number` that the consumer looks for, or a later one where the ring no
/// longer holds it, and says that there is no data exactly where that item is not
/// published yet.
pub proof fn law_reading_follows_stream<T>(
    region: RegionView<T>,
    stream: Seq<T>,
    consumer: Consumer<T>,
    number: int,
    now: u64,
    after: Consumer<T>,
    after_region: RegionView<T>,
    result: ShmResult<&T>,
)
    requires
        region_holds(region, stream),
        region.slots.len() <= usize::MAX,
        consumer.wf(region),
        consumer.mode != HeartbeatMode::Disabled ==> now >= consumer.last_liveness_check,
        looks_for(consumer.read_handle, number, stream.len() as int),
        consumer.tried(region, now, after, after_region, result),
    ensures
        region_holds(after_region, stream),
        ({
            let refused = consumer.mode != HeartbeatMode::Disabled && now
                - consumer.last_liveness_check > consumer.liveness_tolerance / 2 && is_stale(
                region.queue.heartbeats.producer.heartbeat.last_update_us,
                now,
                consumer.liveness_tolerance,
            );
            let got = region.slots[consumer.read_handle.cursor as int].seq as int;
            if refused {
                after.read_handle == consumer.read_handle
            } else if number > stream.len() {
                &&& result == Err::<&T, ShmError>(ShmError::NoData)
                &&& after.read_handle == consumer.read_handle
            } else {
                &&& number <= got <= stream.len()
                &&& stream.len() - region.slots.len() < got
                &&& stream.len() < number + region.slots.len() ==> got == number
                &&& result == Ok::<&T, ShmError>(&stream[got - 1])
                &&& caught_up_to(after.read_handle, got)
                &&& after.read_handle.queue == consumer.read_handle.queue
            }
        }),
{
    law_reading_keeps_watch(region, consumer, now, after, after_region, result);
    if consumer.check_is_due(now) {
        let checked = Consumer { last_liveness_check: now, ..consumer };
        if consumer.sees_producer(region, now) {
            law_consumer_follows_stream(region, stream, checked, number, after, result);
        }
    } else {
        law_consumer_follows_stream(region, stream, consumer, number, after, result);
    }
}

/// A producer that commits keeps watch, however seldom it does. Where more than half
/// the tolerance has gone by since its last look at the consumers, it gives a sign of
/// life and remembers when, and where consumers are tracked it looks again: that none
/// is alive is reported exactly where every record holds no timestamp or a stale one.
/// So after every commit the last look is at most half the tolerance back, and so is
/// the sign of life that came with it.
pub proof fn law_committing_keeps_watch<T>(
    region: RegionView<T>,
    producer: Producer<T>,
    now: u64,
    after: Producer<T>,
    after_region: RegionView<T>,
    result: ShmResult<()>,
)
    requires
        producer.wf(region),
        producer.committed(region, now, after, after_region, result),
    ensures
        ({
            let tolerance = producer.liveness_tolerance;
            let beats = producer.mode != HeartbeatMode::Disabled;
            let late = beats && now - producer.last_liveness_check > tolerance / 2;
            let consumers = region.queue.heartbeats.consumers;
            let none_alive = forall|i: int|
                0 <= i < consumers.max_consumers ==> {
                    let beat = (#[trigger] region.consumers[i]).heartbeat.last_update_us;
                    beat == 0 || is_stale(beat, now, tolerance)
                };
            let before_beat = region.queue.heartbeats.producer.heartbeat;
            let beat = after_region.queue.heartbeats.producer.heartbeat;
            &&& late ==> beat.last_update_us == now && after.last_liveness_check == now
            &&& !late ==> beat == before_beat && after.last_liveness_check
                == producer.last_liveness_check
            &&& beat.pid == before_beat.pid
            &&& beats ==> now - after.last_liveness_check <= tolerance / 2
            &&& result == Err::<(), ShmError>(ShmError::NoActiveConsumer) <==> late
                && producer.mode == HeartbeatMode::Full && none_alive
            &&& result is Err ==> result == Err::<(), ShmError>(ShmError::NoActiveConsumer)
            &&& after_region.consumers == region.consumers
            &&& ({
                let looked = after_region.queue.heartbeats.consumers;
                &&& looked.max_consumers == consumers.max_consumers
                &&& looked.buffer_offset == consumers.buffer_offset
                &&& !(late && producer.mode == HeartbeatMode::Full) ==> looked == consumers
                &&& late && producer.mode == HeartbeatMode::Full && !none_alive ==> {
                    let seen = region.consumers[looked.prev_consumer as int];
                    &&& looked.prev_consumer < looked.max_consumers
                    &&& seen.heartbeat.last_update_us != 0
                    &&& !is_stale(seen.heartbeat.last_update_us, now, tolerance)
                }
            })
            &&& after.liveness_tolerance == tolerance
            &&& after.mode == producer.mode
            &&& after.mmap_size == producer.mmap_size
        }),
{
    let tolerance = producer.liveness_tolerance;
    let meta = region.queue.heartbeats.consumers;
    let records = region.consumers;
    crate::heartbeats::lemma_first_live(records, 0, meta.max_consumers as int, now, tolerance);
    assert(forall|i: int|
        0 <= i < meta.max_consumers ==> (crate::heartbeats::live(
            #[trigger] records[i],
            now,
            tolerance,
        ) <==> !(records[i].heartbeat.last_update_us == 0 || is_stale(
            records[i].heartbeat.last_update_us,
            now,
            tolerance,
        ))));
}

/// A commit publishes the one item that was written, into the slot behind the one that
/// was marked, under the number after the last, and marks that slot. No other slot and
/// nothing else in the header changes.
pub proof fn law_committing_publishes_one_item<T>(
    region: RegionView<T>,
    producer: Producer<T>,
    now: u64,
    after: Producer<T>,
    after_region: RegionView<T>,
    result: ShmResult<()>,
)
    requires
        producer.wf(region),
        producer.committed(region, now, after, after_region, result),
    ensures
        ({
            let next = producer.write_handle.queue.following_index(
                region.queue.header.last_committed_slot,
            );
            &&& is_publication(
                region,
                after_region,
                next,
                producer.write_handle.seq,
                region.slots[next].data,
            )
            &&& region.queue.header.last_committed_slot < region.slots.len() ==> next == next_slot(
                region,
            )
            &&& after.write_handle.seq == after_region.slots[next].seq
        }),
        after.write_handle.queue == producer.write_handle.queue,
        !after.write_handle.reserved,
        after.liveness_check_periods == producer.liveness_check_periods,
{
    law_slots_follow_in_turn(
        producer.write_handle.queue,
        region.queue.header.last_committed_slot,
    );
}

/// The slot behind the marked one; behind the last comes the first.
pub open spec fn next_slot<T>(region: RegionView<T>) -> int {
    let last = region.queue.header.last_committed_slot as int;
    if last + 1 == region.slots.len() {
        0
    } else {
        last + 1
    }
}

/// `after` is `before` with `data` published in the slot `next`, as the item after number
/// `seq`, and with nothing else changed in the header or the slots.
pub open spec fn is_publication<T>(
    before: RegionView<T>,
    after: RegionView<T>,
    next: int,
    seq: usize,
    data: Option<T>,
) -> bool {
    let header = before.queue.header;
    &&& 0 <= next < before.slots.len()
    &&& after.base == before.base
    &&& after.slots.len() == before.slots.len()
    &&& after.slots[next].data == data
    &&& after.slots[next].seq == if seq == usize::MAX {
        0
    } else {
        seq + 1
    }
    &&& forall|i: int|
        0 <= i < before.slots.len() && i != next ==> #[trigger] after.slots[i] == before.slots[i]
    &&& after.queue.header.last_committed_slot == next
    &&& after.queue.header.magic == header.magic
    &&& after.queue.header.version == header.version
    &&& after.queue.header.n_slots == header.n_slots
    &&& after.queue.header.queue_offset == header.queue_offset
    &&& after.queue.header.state == header.state
}

proof fn lemma_next_slot<T>(region: RegionView<T>)
    requires
        region.queue.header.last_committed_slot < region.slots.len(),
    ensures
        (region.queue.header.last_committed_slot + 1) % region.slots.len() as int == next_slot(
            region,
        ),
{
    let n = region.slots.len() as int;
    let last = region.queue.header.last_committed_slot as int;
    if last + 1 < n {
        vstd::arithmetic::div_mod::lemma_small_mod((last + 1) as nat, n as nat);
    } else {
        vstd::arithmetic::div_mod::lemma_mod_self_0(n);
    }
}

/// Writing an item publishes just that, and leaves every heartbeat alone.
pub proof fn law_writing_publishes_one_item<T>(
    region: RegionView<T>,
    producer: Producer<T>,
    item: T,
)
    requires
        producer.wf(region),
    ensures
        ({
            let after = region.published(producer.write_handle, Some(item));
            let next = producer.write_handle.queue.following_index(
                region.queue.header.last_committed_slot,
            );
            &&& is_publication(region, after, next, producer.write_handle.seq, Some(item))
            &&& region.queue.header.last_committed_slot < region.slots.len() ==> next == next_slot(
                region,
            )
            &&& after.queue.heartbeats == region.queue.heartbeats
            &&& after.consumers == region.consumers
            &&& producer.after_publishing().liveness_tolerance == producer.liveness_tolerance
            &&& producer.after_publishing().last_liveness_check == producer.last_liveness_check
            &&& producer.after_publishing().write_handle.queue == producer.write_handle.queue
            &&& producer.after_publishing().write_handle.seq == after.slots[next].seq
            &&& !producer.after_publishing().write_handle.reserved
        }),
{
    law_slots_follow_in_turn(
        producer.write_handle.queue,
        region.queue.header.last_committed_slot,
    );
}

/// A commit appends the item that was written to the stream, at whatever time and
/// whatever it reports.
pub proof fn law_committing_appends<T>(
    before: RegionView<T>,
    stream: Seq<T>,
    region: RegionView<T>,
    item: T,
    producer: Producer<T>,
    now: u64,
    after: Producer<T>,
    after_region: RegionView<T>,
    result: ShmResult<()>,
)
    requires
        region_holds(before, stream),
        stream.len() < usize::MAX,
        before.slots.len() <= usize::MAX,
        producer.wf(region),
        producer.write_handle.seq == stream.len(),
        region == (RegionView {
            slots: before.slots.update(
                next_slot(before),
                Slot { seq: before.slots[next_slot(before)].seq, data: Some(item) },
            ),
            ..before
        }),
        producer.committed(region, now, after, after_region, result),
    ensures
        region_holds(after_region, stream.push(item)),
        after.write_handle.seq == stream.push(item).len(),
{
    let n = before.slots.len() as int;
    vstd::arithmetic::div_mod::lemma_mod_bound(stream.len() + n - 1, n);
    lemma_next_slot(before);
    crate::history::law_publishing_appends(
        before.slots,
        before.queue.header.last_committed_slot,
        stream,
        producer.write_handle,
        item,
    );
    assert(after_region.slots =~= before.slots.update(
        next_slot(before),
        Slot { seq: crate::queue::successor(producer.write_handle.seq), data: Some(item) },
    ));
}

/// The slots follow one another in turn: behind the last comes the first, and a mark
/// beyond the ring counts as the slot that it comes to when the ring is gone round. The
/// largest number is no mark at all; the first slot follows it.
pub proof fn law_slots_follow_in_turn<T>(queue: BroadCastQueue<T>, last: usize)
    requires
        queue.wf(),
    ensures
        0 <= queue.following_index(last) <= queue.len_mask,
        last < queue.len_mask ==> queue.following_index(last) == last + 1,
        last == queue.len_mask ==> queue.following_index(last) == 0,
        queue.len_mask < last < usize::MAX ==> queue.following_index(last)
            == queue.following_index((last - queue.len_mask - 1) as usize),
        last == usize::MAX ==> queue.following_index(last) == 0,
{
    let n = queue.len_mask + 1;
    vstd::arithmetic::div_mod::lemma_mod_bound(last + 1, n);
    if last < queue.len_mask {
        vstd::arithmetic::div_mod::lemma_small_mod((last + 1) as nat, n as nat);
    } else if last == queue.len_mask {
        vstd::arithmetic::div_mod::lemma_mod_self_0(n);
    } else {
        vstd::arithmetic::div_mod::lemma_mod_sub_multiples_vanish(last + 1, n);
    }
}

/// The item in the slot that is about to be written is dropped when the place is handed
/// out for the first time and the item was published a round ago: since then the ring's
/// other slots were published, one number each, and numbers start over behind the
/// largest. Anything else in the slot stays.
pub proof fn law_item_of_last_round_is_dropped<T>(
    writer: BroadcastWriteHandle<T>,
    slot: Slot<T>,
)
    requires
        writer.wf(),
    ensures
        ({
            let a_round_old = slot.seq > 0 && writer.seq == (slot.seq + writer.queue.len_mask) % (
            usize::MAX + 1);
            writer.offered(slot) == if a_round_old && !writer.reserved {
                None
            } else {
                slot.data
            }
        }),
{
    let all = usize::MAX + 1;
    let sum = slot.seq + writer.queue.len_mask;
    if sum < all {
        vstd::arithmetic::div_mod::lemma_small_mod(sum as nat, all as nat);
    } else {
        vstd::arithmetic::div_mod::lemma_mod_sub_multiples_vanish(sum, all);
        vstd::arithmetic::div_mod::lemma_small_mod((sum - all) as nat, all as nat);
    }
}

/// A consumer takes what is newer than what it has read, by its number, and nothing
/// else: then it goes on to the next slot, and otherwise it stays as it is.
pub proof fn law_consumer_takes_what_is_newer<T>(
    region: RegionView<T>,
    consumer: Consumer<T>,
    after: Consumer<T>,
    result: ShmResult<&T>,
)
    requires
        consumer.wf(region),
        consumer.read_handle.finds_item(region.slots),
        consumer.reads(region, after, result),
    ensures
        ({
            let cursor = consumer.read_handle.cursor;
            let slot = region.slots[cursor as int];
            let newer = slot.seq > consumer.read_handle.seq;
            &&& result is Ok <==> newer
            &&& newer ==> slot.data == Some(*result->Ok_0) && after.read_handle.seq == slot.seq
            &&& newer ==> after.read_handle.cursor == if cursor + 1 == region.slots.len() {
                0
            } else {
                cursor + 1
            }
            &&& !newer ==> result == Err::<&T, ShmError>(ShmError::NoData) && after == consumer
            &&& after.read_handle.queue == consumer.read_handle.queue
            &&& after.id == consumer.id
            &&& after.last_liveness_check == consumer.last_liveness_check
            &&& after.liveness_tolerance == consumer.liveness_tolerance
            &&& after.mode == consumer.mode
            &&& after.mmap_size == consumer.mmap_size
        }),
{
    law_slots_follow_in_turn(consumer.read_handle.queue, consumer.read_handle.cursor);
}

/// What the byte for the state says of a queue that was found.
pub open spec fn state_of(byte: u8) -> ShmState {
    if byte == 0 {
        ShmState::Starting
    } else if byte == 1 {
        ShmState::Ready
    } else if byte == 2 {
        ShmState::ShuttingDown
    } else if byte == 3 {
        ShmState::Uninit
    } else {
        ShmState::Invalid
    }
}

/// Whether a consumer record with this last update is nobody's at `now`: it is stale,
/// or it was given up or never used, which at time zero cannot be told.
pub open spec fn is_nobodys(beat: u64, now: u64, tolerance: u64) -> bool {
    is_stale(beat, now, tolerance) || (beat == 0 && now != 0)
}

/// Whether a consumer can attach to a queue, and what it is told otherwise. The state
/// comes first: only a queue that is ready is looked at further. Then the producer has
/// to be alive, if anybody's sign of life is kept, then the magic number has to be the
/// same, then the version. Where consumers are known by records, the first record that
/// is nobody's becomes this consumer's; it is refused where there is none.
pub proof fn law_consumer_is_admitted<T>(builder: ConsumerBuilder, region: RegionView<T>, now: u64)
    requires
        region.wf(),
    ensures
        ({
            let header = region.queue.header;
            let outcome = builder.attach_outcome(region, now);
            let max = region.queue.heartbeats.consumers.max_consumers;
            let silent = builder.mode != HeartbeatMode::Disabled && is_stale(
                region.queue.heartbeats.producer.heartbeat.last_update_us,
                now,
                builder.liveness_tolerance,
            );
            let full = builder.mode == HeartbeatMode::Full && forall|i: int|
                0 <= i < max ==> !is_nobodys(
                    (#[trigger] region.consumers[i]).heartbeat.last_update_us,
                    now,
                    builder.liveness_tolerance,
                );
            &&& state_of(header.state) is Invalid <==> outcome == Err::<usize, ShmError>(
                ShmError::CorruptedQueue,
            )
            &&& (header.state == 0 || header.state == 2 || header.state == 3) <==> outcome == Err::<
                usize,
                ShmError,
            >(ShmError::QueueNotReady(state_of(header.state)))
            &&& header.state == 1 && silent <==> outcome == Err::<usize, ShmError>(
                ShmError::NoActiveProducer,
            )
            &&& header.state == 1 && !silent && header.magic != builder.magic <==> outcome == Err::<
                usize,
                ShmError,
            >(ShmError::BadMagicNum)
            &&& header.state == 1 && !silent && header.magic == builder.magic && header.version
                != builder.version <==> outcome == Err::<usize, ShmError>(
                ShmError::VersionMismatch,
            )
            &&& header.state == 1 && !silent && header.magic == builder.magic && header.version
                == builder.version && full <==> outcome == Err::<usize, ShmError>(
                ShmError::MaxConsumerLimitReached,
            )
            &&& outcome is Ok <==> header.state == 1 && !silent && header.magic == builder.magic
                && header.version == builder.version && !full
            &&& outcome matches Ok(id) ==> if builder.mode == HeartbeatMode::Full {
                &&& id < max
                &&& is_nobodys(
                    region.consumers[id as int].heartbeat.last_update_us,
                    now,
                    builder.liveness_tolerance,
                )
                &&& forall|i: int|
                    0 <= i < id ==> !is_nobodys(
                        (#[trigger] region.consumers[i]).heartbeat.last_update_us,
                        now,
                        builder.liveness_tolerance,
                    )
            } else {
                id == 0
            }
        }),
{
    let max = region.queue.heartbeats.consumers.max_consumers as int;
    let tolerance = builder.liveness_tolerance;
    crate::heartbeats::lemma_first_free(region.consumers, 0, max, now, tolerance);
    assert(forall|i: int|
        0 <= i < max ==> (crate::heartbeats::free(#[trigger] region.consumers[i], now, tolerance)
            <==> is_nobodys(region.consumers[i].heartbeat.last_update_us, now, tolerance)));
}

/// What attaching changes in the object: nothing, unless the consumer is admitted and
/// consumers are known by records. Then its record carries its process and the time,
/// and has been claimed once more; it is remembered as the last one known to be alive;
/// and nothing else changes.
pub proof fn law_attaching_changes_one_record<T>(
    builder: ConsumerBuilder,
    region: RegionView<T>,
    pid: i32,
    now: u64,
)
    requires
        region.wf(),
    ensures
        ({
            let after = builder.attached_region(region, pid, now);
            let outcome = builder.attach_outcome(region, now);
            let claims = outcome is Ok && builder.mode == HeartbeatMode::Full;
            &&& !claims ==> after == region
            &&& claims ==> {
                let id = outcome->Ok_0 as int;
                let record = after.consumers[id];
                &&& record.heartbeat.pid == pid
                &&& record.heartbeat.last_update_us == now
                &&& record.sequence == if region.consumers[id].sequence == usize::MAX {
                    0
                } else {
                    region.consumers[id].sequence + 1
                }
                &&& after.consumers.len() == region.consumers.len()
                &&& forall|i: int|
                    0 <= i < region.consumers.len() && i != id ==> #[trigger] after.consumers[i]
                        == region.consumers[i]
                &&& after.queue.heartbeats.consumers.prev_consumer == id
                &&& after.queue.heartbeats.consumers.max_consumers
                    == region.queue.heartbeats.consumers.max_consumers
                &&& after.queue.heartbeats.consumers.buffer_offset
                    == region.queue.heartbeats.consumers.buffer_offset
                &&& after.queue.heartbeats.producer == region.queue.heartbeats.producer
                &&& after.queue.header == region.queue.header
                &&& after.slots == region.slots
                &&& after.base == region.base
            }
        }),
{
    law_consumer_is_admitted(builder, region, now);
}

/// Whether a producer can take over a queue that it has found, and what it is told
/// otherwise. A queue that is not in use is anybody's and one whose state makes no sense
/// nobody's. Any other is refused while its producer is alive, with that producer's
/// process, if signs of life are kept; and then where it is not what this producer
/// would have made: another magic number, another version, another number of slots, or
/// of consumer records where there are any.
pub proof fn law_producer_is_admitted<T>(region: RegionView<T>, config: QueueConfig, now: u64)
    ensures
        ({
            let header = region.queue.header;
            let heartbeats = region.queue.heartbeats;
            let outcome = takeover_outcome(region, ConnectedMemoryType::Old, config, now);
            let used = header.state <= 2;
            let owned = config.mode != HeartbeatMode::Disabled && !is_stale(
                heartbeats.producer.heartbeat.last_update_us,
                now,
                config.liveness_tolerance,
            );
            let same_magic = header.magic == config.magic;
            let same_version = header.version == config.version;
            let same_size = header.n_slots == config.num_slots && (config.mode
                == HeartbeatMode::Full ==> heartbeats.consumers.max_consumers
                == config.max_consumers);
            &&& takeover_outcome(region, ConnectedMemoryType::New, config, now) is Ok
            &&& outcome is Ok <==> header.state == 3 || (used && !owned && same_magic
                && same_version && same_size)
            &&& used && owned <==> outcome == Err::<(), ShmError>(
                ShmError::QueueAlreadyAcquired(heartbeats.producer.heartbeat.pid),
            )
            &&& used && !owned && !same_magic <==> outcome == Err::<(), ShmError>(
                ShmError::BadMagicNum,
            )
            &&& used && !owned && same_magic && !same_version <==> outcome == Err::<(), ShmError>(
                ShmError::VersionMismatch,
            )
            &&& header.state > 3 || (used && !owned && same_magic && same_version && !same_size)
                <==> outcome == Err::<(), ShmError>(ShmError::CorruptedQueue)
        }),
{
}

/// What an object holds once a producer has set it up. The header says what the
/// configuration says and that the queue is ready; the slots start at a multiple of
/// their alignment, at the first one behind the head and the consumer records. Where
/// signs of life are kept, the producer's is its process and the time; where consumers
/// have records, they start at the first multiple of eight behind the head, and none
/// is known to be alive.
pub proof fn law_set_up_object<T>(
    region: RegionView<T>,
    memory: ConnectedMemoryType,
    config: QueueConfig,
    pid: i32,
    now: u64,
)
    requires
        takeover_outcome(region, memory, config, now) is Ok,
        region.base + object_size::<T>(
            config.mode,
            config.num_slots as int,
            config.max_consumers as int,
        ) <= usize::MAX,
    ensures
        ({
            let after = set_up_region(region, memory, config, pid, now);
            let header = after.queue.header;
            let meta = after.queue.heartbeats.consumers;
            let head_end = queue_size_spec(config.mode);
            let meta_start = queue_size_spec(HeartbeatMode::ProducerOnly);
            let records = meta_start + meta.buffer_offset;
            let behind = if config.mode == HeartbeatMode::Full {
                records + config.max_consumers * 24
            } else {
                head_end
            };
            &&& header.magic == config.magic
            &&& header.version == config.version
            &&& header.n_slots == config.num_slots
            &&& header.state == 1
            &&& behind <= header.queue_offset < behind + slot_align::<T>()
            &&& (region.base + header.queue_offset) % slot_align::<T>() == 0
            &&& config.mode != HeartbeatMode::Disabled ==> {
                &&& after.queue.heartbeats.producer.heartbeat.pid == pid
                &&& after.queue.heartbeats.producer.heartbeat.last_update_us == now
            }
            &&& config.mode == HeartbeatMode::Full ==> {
                &&& meta.max_consumers == config.max_consumers
                &&& meta.prev_consumer == config.max_consumers
                &&& head_end <= records < head_end + 8
                &&& (region.base + records) % 8 == 0
            }
            &&& after.base == region.base
            &&& after.consumers.len() == region.consumers.len()
            &&& after.slots.len() == region.slots.len()
        }),
{
    let base = region.base as int;
    lemma_slot_layout::<T>();
    crate::layout::law_head_in_bytes();
    crate::layout::law_parts_fit_the_object::<T>(
        base,
        config.mode,
        config.num_slots as int,
        config.max_consumers as int,
    );
    crate::numeric::lemma_round_up(base + queue_size_spec(HeartbeatMode::Full), 8);
    crate::numeric::lemma_round_up(
        base + queue_size_spec(config.mode) + crate::layout::consumer_area(
            base,
            config.mode,
            config.max_consumers as int,
        ),
        slot_align::<T>(),
    );
    assert(config.num_slots * slot_size::<T>() >= 0) by (nonlinear_arith)
        requires
            slot_size::<T>() >= 0,
    ;
}

/// What setting an object up leaves alone. In a new object nothing was there: no item,
/// no claimed record, and the slot that is marked is the last, so that the first item
/// goes into the first. In one that was taken over the items, the mark and the records
/// stay. One that was refused stays as it is.
pub proof fn law_set_up_keeps_what_was_there<T>(
    region: RegionView<T>,
    memory: ConnectedMemoryType,
    config: QueueConfig,
    pid: i32,
    now: u64,
)
    ensures
        ({
            let after = set_up_region(region, memory, config, pid, now);
            match memory {
                ConnectedMemoryType::New => {
                    &&& config.num_slots > 0 ==> after.queue.header.last_committed_slot
                        == config.num_slots - 1
                    &&& config.num_slots == 0 ==> after.queue.header.last_committed_slot
                        == usize::MAX
                    &&& forall|i: int|
                        0 <= i < after.slots.len() ==> (#[trigger] after.slots[i]).seq == 0
                            && after.slots[i].data is None
                    &&& forall|i: int|
                        0 <= i < after.consumers.len() ==> {
                            let record = #[trigger] after.consumers[i];
                            &&& record.heartbeat.last_update_us == 0
                            &&& record.heartbeat.pid == 0
                            &&& record.sequence == 0
                        }
                    &&& published_before(region, memory) == 0
                    &&& config.mode == HeartbeatMode::Disabled ==> {
                        &&& after.queue.heartbeats.producer.heartbeat.pid == 0
                        &&& after.queue.heartbeats.producer.heartbeat.last_update_us == 0
                    }
                    &&& config.mode != HeartbeatMode::Full ==> {
                        &&& after.queue.heartbeats.consumers.prev_consumer == 0
                        &&& after.queue.heartbeats.consumers.buffer_offset == 0
                        &&& after.queue.heartbeats.consumers.max_consumers == 0
                    }
                },
                ConnectedMemoryType::Old => {
                    &&& after.slots == region.slots
                    &&& after.consumers == region.consumers
                    &&& after.queue.header.last_committed_slot
                        == region.queue.header.last_committed_slot
                    &&& takeover_outcome(region, memory, config, now) is Err ==> after == region
                    &&& config.mode == HeartbeatMode::Disabled ==> after.queue.heartbeats
                        == region.queue.heartbeats
                    &&& config.mode != HeartbeatMode::Full ==> after.queue.heartbeats.consumers
                        == region.queue.heartbeats.consumers
                    &&& ({
                        let mark = region.queue.header.last_committed_slot as int;
                        published_before(region, memory) == if mark < region.slots.len() {
                            region.slots[mark].seq
                        } else {
                            0
                        }
                    })
                },
            }
        }),
{
}

/// A producer that was just built keeps watch from the time on at which it was built,
/// every half of the tolerance, has handed out no place yet, and has its ring inside
/// the object, at a multiple of the slot alignment.
pub proof fn law_built_producer<T>(
    producer: Producer<T>,
    base: int,
    config: QueueConfig,
    seq: usize,
    now: u64,
    slot: int,
)
    requires
        is_fresh_producer(producer, base, config, seq, now),
        base >= 0,
        0 <= slot < config.num_slots,
    ensures
        producer.last_liveness_check == now,
        producer.liveness_tolerance == config.liveness_tolerance,
        producer.liveness_tolerance - 1 <= 2 * producer.liveness_check_periods
            <= producer.liveness_tolerance,
        producer.mode == config.mode,
        producer.write_handle.seq == seq,
        !producer.write_handle.reserved,
        producer.write_handle.queue.len_mask + 1 == config.num_slots,
        producer.mmap_size == object_size::<T>(
            config.mode,
            config.num_slots as int,
            config.max_consumers as int,
        ),
        producer.write_handle.queue.buf as int % slot_align::<T>() == 0,
        base + queue_size_spec(config.mode) <= producer.write_handle.queue.buf,
        producer.write_handle.queue.buf + (slot + 1) * slot_size::<T>() <= base
            + producer.mmap_size,
{
    crate::layout::law_parts_fit_the_object::<T>(
        base,
        config.mode,
        config.num_slots as int,
        config.max_consumers as int,
    );
    lemma_slot_layout::<T>();
    assert((slot + 1) * slot_size::<T>() <= config.num_slots * slot_size::<T>())
        by (nonlinear_arith)
        requires
            0 <= slot < config.num_slots,
            slot_size::<T>() >= 0,
    ;
}

/// A consumer that was just built keeps watch from the time on at which it was built,
/// every half of the tolerance, has read nothing, and looks at the marked slot where
/// that holds an item and otherwise at the one behind it.
pub proof fn law_built_consumer<T>(
    builder: ConsumerBuilder,
    consumer: Consumer<T>,
    base: int,
    header: ShmHeader,
    last_seq: usize,
    id: usize,
    now: u64,
)
    requires
        builder.is_fresh_consumer(consumer, base, header, last_seq, id, now),
    ensures
        consumer.last_liveness_check == now,
        consumer.liveness_tolerance == builder.liveness_tolerance,
        consumer.liveness_tolerance - 1 <= 2 * consumer.liveness_check_periods
            <= consumer.liveness_tolerance,
        consumer.mode == builder.mode,
        consumer.id == id,
        consumer.read_handle.seq == 0,
        consumer.read_handle.queue.len_mask + 1 == header.n_slots,
        consumer.read_handle.queue.buf == base + header.queue_offset,
        header.last_committed_slot < header.n_slots ==> consumer.read_handle.cursor == if last_seq
            > 0 {
            header.last_committed_slot as int
        } else if header.last_committed_slot + 1 == header.n_slots {
            0
        } else {
            header.last_committed_slot + 1
        },
        header.last_committed_slot == usize::MAX ==> consumer.read_handle.cursor == 0,
        last_seq == 0 ==> consumer.read_handle.cursor
            == consumer.read_handle.queue.following_index(header.last_committed_slot),
{
    law_slots_follow_in_turn(consumer.read_handle.queue, header.last_committed_slot);
}

/// A consumer that joins a queue with a stream in it looks for the newest item, or for
/// the first where there is none yet. So, by `law_consumer_follows_stream`, it gets that
/// item even where others were published since, as long as the ring still holds it.
pub proof fn law_built_consumer_looks_for_newest<T>(
    builder: ConsumerBuilder,
    region: RegionView<T>,
    stream: Seq<T>,
    consumer: Consumer<T>,
    base: int,
    id: usize,
    now: u64,
)
    requires
        region_holds(region, stream),
        region.slots.len() == region.queue.header.n_slots,
        stream.len() < usize::MAX,
        builder.is_fresh_consumer(
            consumer,
            base,
            region.queue.header,
            region.last_seq(),
            id,
            now,
        ),
    ensures
        looks_for(
            consumer.read_handle,
            if stream.len() == 0 {
                1
            } else {
                stream.len() as int
            },
            stream.len() as int,
        ),
{
    let n = region.slots.len() as int;
    let count = stream.len() as int;
    let last = region.queue.header.last_committed_slot;
    vstd::arithmetic::div_mod::lemma_mod_bound(count + n - 1, n);
    vstd::arithmetic::div_mod::lemma_mod_add_multiples_vanish(count - 1, n);
    law_built_consumer(
        builder,
        consumer,
        base,
        region.queue.header,
        region.last_seq(),
        id,
        now,
    );
    if count > 0 {
        crate::history::lemma_newest_is(last as int, count, n, count);
    } else {
        vstd::arithmetic::div_mod::lemma_small_mod((n - 1) as nat, n as nat);
        vstd::arithmetic::div_mod::lemma_small_mod(0, n as nat);
    }
}

/// A sign of life counts for as long as less than the tolerance has gone by since. One
/// from the future counts, unless nothing is tolerated. For a consumer's record zero is
/// no sign of life, and a record without one is free once the clock has left zero.
pub proof fn law_sign_of_life_counts_for_the_tolerance(
    record: ConsumerHeartbeat,
    now: u64,
    tolerance: u64,
)
    ensures
        ({
            let beat = record.heartbeat.last_update_us;
            &&& alive_at(beat, now, tolerance) <==> !is_stale(beat, now, tolerance)
            &&& live(record, now, tolerance) <==> beat != 0 && !is_stale(beat, now, tolerance)
            &&& free(record, now, tolerance) <==> is_nobodys(beat, now, tolerance)
            &&& in_use_at(beat, now, tolerance) <==> live(record, now, tolerance)
            &&& free_at(beat, now, tolerance) <==> free(record, now, tolerance)
        }),
{
}

/// What a consumer's sign of life at `value` changes: the time in its own record, if it
/// has one. A consumer that is given up gives the sign of life zero.
pub proof fn law_consumer_marks_its_own_record<T>(
    consumer: Consumer<T>,
    region: RegionView<T>,
    value: u64,
)
    requires
        region.wf(),
    ensures
        ({
            let after = consumer.beat(region, value);
            let id = consumer.id as int;
            let has_record = consumer.mode == HeartbeatMode::Full && id
                < region.queue.heartbeats.consumers.max_consumers;
            &&& after.base == region.base
            &&& after.queue == region.queue
            &&& after.slots == region.slots
            &&& after.consumers.len() == region.consumers.len()
            &&& forall|i: int|
                0 <= i < region.consumers.len() && !(has_record && i == id)
                    ==> #[trigger] after.consumers[i] == region.consumers[i]
            &&& has_record ==> {
                &&& after.consumers[id].heartbeat.last_update_us == value
                &&& after.consumers[id].heartbeat.pid == region.consumers[id].heartbeat.pid
                &&& after.consumers[id].sequence == region.consumers[id].sequence
            }
        }),
{
}

/// A producer's sign of life changes the time in its record and nothing else.
pub proof fn law_producer_marks_its_record<T>(region: RegionView<T>, now: u64)
    ensures
        ({
            let after = region.producer_beat(now);
            &&& after.queue.heartbeats.producer.heartbeat.last_update_us == now
            &&& after.queue.heartbeats.producer.heartbeat.pid
                == region.queue.heartbeats.producer.heartbeat.pid
            &&& after.queue.heartbeats.consumers == region.queue.heartbeats.consumers
            &&& after.queue.header == region.queue.header
            &&& after.consumers == region.consumers
            &&& after.slots == region.slots
            &&& after.base == region.base
        }),
{
}

/// A producer's look at the consumers finds one exactly where a record holds a time that
/// is not stale. It remembers one that is alive, the same one as before as long as that
/// is, and changes nothing else.
pub proof fn law_producer_looks_at_every_record<T>(
    region: RegionView<T>,
    now: u64,
    tolerance: u64,
)
    requires
        region.wf(),
    ensures
        ({
            let meta = region.queue.heartbeats.consumers;
            let after = region.consumers_checked(now, tolerance);
            let looked = after.queue.heartbeats.consumers;
            let found = region.finds_live_consumer(now, tolerance);
            &&& found <==> exists|i: int|
                0 <= i < meta.max_consumers && (#[trigger] region.consumers[i]).heartbeat.last_update_us
                    != 0 && !is_stale(region.consumers[i].heartbeat.last_update_us, now, tolerance)
            &&& found ==> {
                let beat = region.consumers[looked.prev_consumer as int].heartbeat.last_update_us;
                &&& looked.prev_consumer < meta.max_consumers
                &&& beat != 0
                &&& !is_stale(beat, now, tolerance)
            }
            &&& !found ==> looked.prev_consumer >= meta.max_consumers
            &&& meta.prev_consumer < meta.max_consumers && live(
                region.consumers[meta.prev_consumer as int],
                now,
                tolerance,
            ) ==> looked.prev_consumer == meta.prev_consumer
            &&& looked.max_consumers == meta.max_consumers
            &&& looked.buffer_offset == meta.buffer_offset
            &&& after.queue.heartbeats.producer == region.queue.heartbeats.producer
            &&& after.queue.header == region.queue.header
            &&& after.consumers == region.consumers
            &&& after.slots == region.slots
            &&& after.base == region.base
        }),
{
    let max = region.queue.heartbeats.consumers.max_consumers as int;
    crate::heartbeats::lemma_first_live(region.consumers, 0, max, now, tolerance);
    assert(forall|i: int|
        0 <= i < max ==> (live(#[trigger] region.consumers[i], now, tolerance) <==> {
            &&& region.consumers[i].heartbeat.last_update_us != 0
            &&& !is_stale(region.consumers[i].heartbeat.last_update_us, now, tolerance)
        }));
}

} // verus!
