//! What a ring holds of the stream that was published into it, and what its
//! readers see of it.
//!
//! The stream is the sequence of all items since the ring was fresh, so the item
//! number `m` is `stream[m - 1]`.

use crate::consumer::{Consumer, ConsumerBuilder};
use crate::error::{ShmError, ShmResult};
use crate::heartbeats::HeartbeatMode;
use crate::producer::{
    is_fresh_producer, published_before, set_up_region, ConnectedMemoryType, Producer,
};
use crate::queue::{
    successor, BroadcastReadHandle, BroadcastWriteHandle, Slot,
};
use crate::region::RegionView;
use crate::setup::{takeover_verdict, QueueConfig};
use vstd::arithmetic::div_mod::{
    lemma_fundamental_div_mod, lemma_fundamental_div_mod_converse, lemma_mod_bound,
    lemma_small_mod,
};
use vstd::prelude::*;

verus! {

/// The number of the newest item among the first `count` that slot `index` of a
/// ring of `n` slots takes, or zero where there is none yet.
pub open spec fn newest_in_slot(index: int, count: int, n: int) -> int {
    if count <= index {
        0
    } else {
        count - (count - 1 - index) % n
    }
}

/// The ring holds the last items of the stream, each in its slot and under its
/// number, and knows which slot was published last.
pub open spec fn holds_stream<T>(
    slots: Seq<Slot<T>>,
    last_committed_slot: usize,
    stream: Seq<T>,
) -> bool {
    let n = slots.len() as int;
    &&& n > 0
    &&& stream.len() <= usize::MAX
    &&& last_committed_slot == (stream.len() + n - 1) % n
    &&& forall|i: int|
        0 <= i < n ==> {
            &&& (#[trigger] slots[i]).seq == newest_in_slot(i, stream.len() as int, n)
            &&& slots[i].seq > 0 ==> slots[i].data == Some(stream[slots[i].seq - 1])
        }
}

/// The reader has read item number `count`, or none where that is zero, and is about
/// to look for the next.
pub open spec fn caught_up_to<T>(reader: BroadcastReadHandle<T>, count: int) -> bool {
    &&& 0 <= count <= usize::MAX
    &&& reader.seq == count
    &&& reader.cursor == count % reader.queue.slot_count()
}

/// The index of the item `m` is its number less one, modulo the ring's length.
pub proof fn lemma_newest(index: int, count: int, n: int)
    requires
        0 <= index < n,
        count > index,
    ensures
        ({
            let m = newest_in_slot(index, count, n);
            &&& count - n < m <= count
            &&& m > 0
            &&& (m - 1) % n == index
            &&& m % n == (index + 1) % n
        }),
{
    let r = (count - 1 - index) % n;
    let q = (count - 1 - index) / n;
    lemma_fundamental_div_mod(count - 1 - index, n);
    lemma_mod_bound(count - 1 - index, n);
    let m = newest_in_slot(index, count, n);
    assert(m - 1 == index + n * q);
    assert(q >= 0) by (nonlinear_arith)
        requires
            n * q + r == count - 1 - index,
            0 <= r < n,
            count - 1 - index >= 0,
            n > 0,
    ;
    assert(n * q >= 0) by (nonlinear_arith)
        requires
            q >= 0,
            n > 0,
    ;
    assert(n * q == q * n) by (nonlinear_arith);
    lemma_fundamental_div_mod_converse(m - 1, n, q, index);
    vstd::arithmetic::div_mod::lemma_mod_multiples_vanish(q, index + 1, n);
}

/// The newest item of a slot is the one in the stream's last `n` that belongs
/// there.
pub proof fn lemma_newest_is(index: int, count: int, n: int, m: int)
    requires
        0 <= index < n,
        0 < m <= count,
        count - n < m,
        (m - 1) % n == index,
    ensures
        newest_in_slot(index, count, n) == m,
{
    lemma_fundamental_div_mod(m - 1, n);
    let q = (m - 1) / n;
    assert(n * q >= 0) by (nonlinear_arith)
        requires
            n * q + index == m - 1,
            0 <= index < n,
            m - 1 >= 0,
            n > 0,
    ;
    assert(count > index);
    let d = count - 1 - index;
    assert(d == n * q + (count - m));
    assert(n * q == q * n) by (nonlinear_arith);
    lemma_fundamental_div_mod_converse(d, n, q, count - m);
}

/// A ring whose slots were never published holds the empty stream.
pub proof fn law_fresh_ring_holds_nothing<T>(slots: Seq<Slot<T>>, last_committed_slot: usize)
    requires
        slots.len() > 0,
        last_committed_slot == slots.len() - 1,
        forall|i: int| 0 <= i < slots.len() ==> (#[trigger] slots[i]).seq == 0,
    ensures
        holds_stream(slots, last_committed_slot, Seq::empty()),
{
    lemma_small_mod((slots.len() - 1) as nat, slots.len());
}

/// Publishing an item appends it to the stream that the ring holds.
pub proof fn law_publishing_appends<T>(
    slots: Seq<Slot<T>>,
    last_committed_slot: usize,
    stream: Seq<T>,
    writer: BroadcastWriteHandle<T>,
    item: T,
)
    requires
        holds_stream(slots, last_committed_slot, stream),
        slots.len() == writer.queue.slot_count(),
        slots.len() <= usize::MAX,
        writer.seq == stream.len(),
        stream.len() < usize::MAX,
    ensures
        ({
            let next = writer.queue.following_index(last_committed_slot);
            let seq = successor(writer.seq);
            &&& 0 <= next < slots.len()
            &&& seq == stream.len() + 1
            &&& holds_stream(
                slots.update(next, Slot { seq, data: Some(item) }),
                next as usize,
                stream.push(item),
            )
        }),
{
    let n = slots.len() as int;
    let k = stream.len() as int;
    let next = writer.queue.following_index(last_committed_slot);
    let seq = successor(writer.seq);
    let after = slots.update(next, Slot { seq, data: Some(item) });
    lemma_mod_bound(k + n - 1, n);
    assert(next == k % n) by {
        vstd::arithmetic::div_mod::lemma_add_mod_noop(k + n - 1, 1, n);
        vstd::arithmetic::div_mod::lemma_mod_add_multiples_vanish(k, n);
        if n > 1 {
            lemma_small_mod(1, n as nat);
        }
    }
    lemma_mod_bound(k, n);
    vstd::arithmetic::div_mod::lemma_mod_add_multiples_vanish(k, n);
    assert forall|i: int| 0 <= i < n implies {
        &&& (#[trigger] after[i]).seq == newest_in_slot(i, k + 1, n)
        &&& after[i].seq > 0 ==> after[i].data == Some(stream.push(item)[after[i].seq - 1])
    } by {
        if i == next {
            lemma_newest_is(i, k + 1, n, k + 1);
        } else {
            assert(after[i] == slots[i]);
            if k > i {
                lemma_newest(i, k, n);
                let m = newest_in_slot(i, k, n);
                if m == k + 1 - n {
                    vstd::arithmetic::div_mod::lemma_mod_add_multiples_vanish(m - 1, n);
                    assert(false);
                }
                lemma_newest_is(i, k + 1, n, m);
            } else if k == i {
                lemma_small_mod(k as nat, n as nat);
                assert(false);
            }
        }
    }
}

/// A reader that joins after something was published reads the newest item
/// first, and has then caught up.
pub proof fn law_joining_reader_gets_newest<T>(
    slots: Seq<Slot<T>>,
    last_committed_slot: usize,
    stream: Seq<T>,
    reader: BroadcastReadHandle<T>,
)
    requires
        holds_stream(slots, last_committed_slot, stream),
        stream.len() > 0,
        slots.len() == reader.queue.slot_count(),
        slots.len() <= usize::MAX,
        reader.cursor == last_committed_slot,
        reader.seq == 0,
    ensures
        ({
            let slot = slots[reader.cursor as int];
            &&& slot.seq > reader.seq
            &&& slot.data == Some(stream.last())
            &&& caught_up_to(reader.after_reading(slot.seq), stream.len() as int)
        }),
{
    let n = slots.len() as int;
    let k = stream.len() as int;
    lemma_mod_bound(k + n - 1, n);
    vstd::arithmetic::div_mod::lemma_mod_add_multiples_vanish(k - 1, n);
    lemma_newest_is(reader.cursor as int, k, n, k);
    lemma_newest(reader.cursor as int, k, n);
}

/// Publishing writes the slot's number before it moves the ring's mark on. A reader
/// that joins in between, at the mark as it was, reads the item before the new one
/// first and has then caught up to that, so it misses nothing.
pub proof fn law_reader_may_join_during_publication<T>(
    slots: Seq<Slot<T>>,
    last_committed_slot: usize,
    stream: Seq<T>,
    reader: BroadcastReadHandle<T>,
)
    requires
        holds_stream(slots, last_committed_slot, stream),
        stream.len() > 1,
        slots.len() > 1,
        slots.len() == reader.queue.slot_count(),
        slots.len() <= usize::MAX,
        reader.cursor == (stream.len() + slots.len() - 2) % slots.len() as int,
        reader.seq == 0,
    ensures
        ({
            let slot = slots[reader.cursor as int];
            &&& slot.seq == stream.len() - 1
            &&& slot.data == Some(stream[stream.len() - 2])
            &&& caught_up_to(reader.after_reading(slot.seq), stream.len() - 1)
        }),
{
    let n = slots.len() as int;
    let k = stream.len() as int;
    lemma_mod_bound(k + n - 2, n);
    vstd::arithmetic::div_mod::lemma_mod_add_multiples_vanish(k - 2, n);
    lemma_newest_is(reader.cursor as int, k, n, k - 1);
    lemma_newest(reader.cursor as int, k, n);
}

/// A reader that has caught up to item `count` and is not more than a ring's
/// length behind reads item `count + 1` next: nothing is skipped, repeated or
/// put out of order.
pub proof fn law_reader_gets_next_item<T>(
    slots: Seq<Slot<T>>,
    last_committed_slot: usize,
    stream: Seq<T>,
    reader: BroadcastReadHandle<T>,
    count: int,
)
    requires
        holds_stream(slots, last_committed_slot, stream),
        slots.len() == reader.queue.slot_count(),
        slots.len() <= usize::MAX,
        caught_up_to(reader, count),
        count < stream.len() <= count + slots.len(),
    ensures
        ({
            let slot = slots[reader.cursor as int];
            &&& slot.seq == count + 1
            &&& slot.data == Some(stream[count])
            &&& caught_up_to(reader.after_reading(slot.seq), count + 1)
        }),
{
    let n = slots.len() as int;
    let k = stream.len() as int;
    lemma_mod_bound(count, n);
    lemma_newest_is(reader.cursor as int, k, n, count + 1);
    lemma_newest(reader.cursor as int, k, n);
}

/// A reader that has read everything finds no news.
pub proof fn law_reader_waits_at_end<T>(
    slots: Seq<Slot<T>>,
    last_committed_slot: usize,
    stream: Seq<T>,
    reader: BroadcastReadHandle<T>,
)
    requires
        holds_stream(slots, last_committed_slot, stream),
        slots.len() == reader.queue.slot_count(),
        caught_up_to(reader, stream.len() as int),
    ensures
        0 <= reader.cursor < slots.len(),
        slots[reader.cursor as int].seq <= reader.seq,
{
    let n = slots.len() as int;
    let k = stream.len() as int;
    lemma_mod_bound(k, n);
    if k > reader.cursor {
        lemma_newest(reader.cursor as int, k, n);
    }
}

/// Whatever a reader finds new at its cursor is an item of the stream that it has
/// not read, and newer than all that it has; it then goes on right behind it. So
/// no item is read twice or after a later one, also by a reader that was
/// overtaken.
pub proof fn law_reads_move_forward<T>(
    slots: Seq<Slot<T>>,
    last_committed_slot: usize,
    stream: Seq<T>,
    reader: BroadcastReadHandle<T>,
)
    requires
        holds_stream(slots, last_committed_slot, stream),
        slots.len() == reader.queue.slot_count(),
        slots.len() <= usize::MAX,
        reader.cursor < slots.len(),
        slots[reader.cursor as int].seq > reader.seq,
    ensures
        ({
            let slot = slots[reader.cursor as int];
            &&& reader.seq < slot.seq <= stream.len()
            &&& slot.data == Some(stream[slot.seq - 1])
            &&& caught_up_to(reader.after_reading(slot.seq), slot.seq as int)
        }),
{
    let n = slots.len() as int;
    lemma_newest(reader.cursor as int, stream.len() as int, n);
}

/// A slow reader, more than a ring's length behind, does not wait for what was
/// overwritten: it reads one of the last items that the ring still holds.
pub proof fn law_overtaken_reader_skips_ahead<T>(
    slots: Seq<Slot<T>>,
    last_committed_slot: usize,
    stream: Seq<T>,
    reader: BroadcastReadHandle<T>,
    count: int,
)
    requires
        holds_stream(slots, last_committed_slot, stream),
        slots.len() == reader.queue.slot_count(),
        slots.len() <= usize::MAX,
        caught_up_to(reader, count),
        stream.len() > count + slots.len(),
    ensures
        ({
            let slot = slots[reader.cursor as int];
            &&& count + 1 < slot.seq <= stream.len()
            &&& stream.len() - slots.len() < slot.seq
            &&& slot.data == Some(stream[slot.seq - 1])
            &&& caught_up_to(reader.after_reading(slot.seq), slot.seq as int)
        }),
{
    let n = slots.len() as int;
    let k = stream.len() as int;
    lemma_mod_bound(count, n);
    lemma_newest(reader.cursor as int, k, n);
}

/// A reader that joins before anything was published has the whole stream before it:
/// it is about to look for the first item. The ring may be marked at its last slot
/// or at none.
pub proof fn law_early_reader_has_all_to_read<T>(
    slots: Seq<Slot<T>>,
    last_committed_slot: usize,
    reader: BroadcastReadHandle<T>,
)
    requires
        holds_stream(slots, last_committed_slot, Seq::empty()),
        slots.len() == reader.queue.slot_count(),
        slots.len() <= usize::MAX,
        reader.seq == 0,
        reader.cursor == BroadcastReadHandle::start(
            reader.queue,
            last_committed_slot,
            slots[last_committed_slot as int].seq,
        ) || reader.cursor == BroadcastReadHandle::start(reader.queue, usize::MAX, 0),
    ensures
        caught_up_to(reader, 0),
{
    let n = slots.len() as int;
    lemma_small_mod(0, n as nat);
    lemma_small_mod((n - 1) as nat, n as nat);
    vstd::arithmetic::div_mod::lemma_mod_self_0(n);
}

/// A reader is told that there is no data exactly where it has read everything,
/// however far behind it is.
pub proof fn law_no_data_means_all_read<T>(
    slots: Seq<Slot<T>>,
    last_committed_slot: usize,
    stream: Seq<T>,
    reader: BroadcastReadHandle<T>,
    count: int,
)
    requires
        holds_stream(slots, last_committed_slot, stream),
        slots.len() == reader.queue.slot_count(),
        slots.len() <= usize::MAX,
        caught_up_to(reader, count),
        count <= stream.len(),
    ensures
        slots[reader.cursor as int].seq > reader.seq <==> count < stream.len(),
{
    if count == stream.len() {
        law_reader_waits_at_end(slots, last_committed_slot, stream, reader);
    } else if stream.len() <= count + slots.len() {
        law_reader_gets_next_item(slots, last_committed_slot, stream, reader, count);
    } else {
        law_overtaken_reader_skips_ahead(slots, last_committed_slot, stream, reader, count);
    }
}

/// A ring that was never written may carry the largest number as its mark. The first
/// item then goes into the first slot, and the ring holds a stream of that item.
pub proof fn law_unmarked_ring_starts_at_first_slot<T>(
    slots: Seq<Slot<T>>,
    writer: BroadcastWriteHandle<T>,
    item: T,
)
    requires
        slots.len() > 0,
        slots.len() == writer.queue.slot_count(),
        slots.len() <= usize::MAX,
        writer.seq == 0,
        forall|i: int| 0 <= i < slots.len() ==> (#[trigger] slots[i]).seq == 0,
    ensures
        writer.queue.following_index(usize::MAX) == 0,
        holds_stream(
            slots.update(0, Slot { seq: successor(writer.seq), data: Some(item) }),
            0,
            seq![item],
        ),
{
    let n = slots.len() as int;
    lemma_small_mod(0, n as nat);
    law_fresh_ring_holds_nothing(slots, (n - 1) as usize);
    law_publishing_appends(slots, (n - 1) as usize, Seq::empty(), writer, item);
    assert(writer.queue.following_index((n - 1) as usize) == 0) by {
        vstd::arithmetic::div_mod::lemma_mod_self_0(n);
    }
    assert(Seq::<T>::empty().push(item) =~= seq![item]);
}

/// In a ring that holds a stream, what a reader finds is an item. While the place
/// for the next item is handed out, and whatever it holds by then, this stays so
/// for every reader that is less than a ring's length behind, and such a reader
/// finds what it found before.
pub proof fn law_stream_ring_is_readable<T>(
    slots: Seq<Slot<T>>,
    last_committed_slot: usize,
    stream: Seq<T>,
    reader: BroadcastReadHandle<T>,
    count: int,
    next: int,
    place: Option<T>,
)
    requires
        holds_stream(slots, last_committed_slot, stream),
        slots.len() == reader.queue.slot_count(),
        slots.len() <= usize::MAX,
        caught_up_to(reader, count),
        count <= stream.len(),
        next == stream.len() % slots.len(),
    ensures
        reader.finds_item(slots),
        stream.len() < count + slots.len() ==> {
            let pending = slots.update(next, Slot { seq: slots[next].seq, data: place });
            let before = slots[reader.cursor as int];
            let during = pending[reader.cursor as int];
            &&& reader.finds_item(pending)
            &&& during.seq == before.seq
            &&& before.seq > reader.seq ==> during == before
        },
{
    let n = slots.len() as int;
    lemma_mod_bound(count, n);
    lemma_mod_bound(stream.len() as int, n);
    law_no_data_means_all_read(slots, last_committed_slot, stream, reader, count);
    if stream.len() < count + n && reader.cursor == next && count < stream.len() {
        lemma_fundamental_div_mod(count, n);
        lemma_fundamental_div_mod(stream.len() as int, n);
        let q = stream.len() as int / n - count / n;
        assert(stream.len() - count == n * q) by (nonlinear_arith)
            requires
                stream.len() == n * (stream.len() as int / n) + next,
                count == n * (count / n) + next,
                q == stream.len() as int / n - count / n,
        ;
        assert(false) by (nonlinear_arith)
            requires
                0 < n * q < n,
                n > 0,
        ;
    }
}

/// The item that the next one overwrites is dropped when its place is handed out:
/// it is the one that was published a ring's length before. Before the ring has gone
/// round there is none. A place that was already handed out stays as it is, so an
/// item is dropped once.
pub proof fn law_overwritten_item_is_dropped<T>(
    slots: Seq<Slot<T>>,
    last_committed_slot: usize,
    stream: Seq<T>,
    writer: BroadcastWriteHandle<T>,
    index: int,
)
    requires
        holds_stream(slots, last_committed_slot, stream),
        slots.len() == writer.queue.slot_count(),
        slots.len() <= usize::MAX,
        writer.seq == stream.len(),
        index == stream.len() % slots.len(),
    ensures
        0 <= index < slots.len(),
        writer.overwrites(slots[index].seq) <==> stream.len() >= slots.len(),
        stream.len() >= slots.len() ==> slots[index].data == Some(
            stream[stream.len() - slots.len()],
        ),
        stream.len() >= slots.len() && !writer.reserved ==> writer.offered(slots[index]) is None,
        writer.reserved ==> writer.offered(slots[index]) == slots[index].data,
        forall|i: int|
            0 <= i < slots.len() && i != index ==> !writer.overwrites((#[trigger] slots[i]).seq),
{
    let n = slots.len() as int;
    let k = stream.len() as int;
    lemma_mod_bound(k, n);
    if k >= n {
        vstd::arithmetic::div_mod::lemma_mod_sub_multiples_vanish(k, n);
        lemma_newest_is(index, k, n, k - n + 1);
    } else {
        lemma_small_mod(k as nat, n as nat);
    }
    assert forall|i: int| 0 <= i < slots.len() && i != index implies !writer.overwrites(
        (#[trigger] slots[i]).seq,
    ) by {
        if k > i {
            lemma_newest(i, k, n);
            let m = newest_in_slot(i, k, n);
            if m == k + 1 - n {
                vstd::arithmetic::div_mod::lemma_mod_add_multiples_vanish(m - 1, n);
            }
        }
    }
}

/// The ring of an object holds the stream.
pub open spec fn region_holds<T>(region: RegionView<T>, stream: Seq<T>) -> bool {
    holds_stream(region.slots, region.queue.header.last_committed_slot, stream)
}

/// An object that a producer has made and set up holds the empty stream.
pub proof fn law_new_queue_is_empty<T>(
    region: RegionView<T>,
    config: QueueConfig,
    pid: i32,
    now: u64,
)
    requires
        region.slots.len() == config.num_slots,
        config.num_slots > 0,
    ensures
        region_holds(
            set_up_region(region, ConnectedMemoryType::New, config, pid, now),
            Seq::empty(),
        ),
{
    let ready = set_up_region(region, ConnectedMemoryType::New, config, pid, now);
    law_fresh_ring_holds_nothing(ready.slots, ready.queue.header.last_committed_slot);
}

/// A producer that takes an object over leaves the stream in it.
pub proof fn law_takeover_keeps_stream<T>(
    region: RegionView<T>,
    config: QueueConfig,
    pid: i32,
    now: u64,
    stream: Seq<T>,
)
    requires
        region_holds(region, stream),
    ensures
        region_holds(
            set_up_region(region, ConnectedMemoryType::Old, config, pid, now),
            stream,
        ),
{
}

/// What is done about heartbeats does not touch the stream, and neither do
/// consumers that come and go.
pub proof fn law_heartbeats_leave_stream<T>(
    region: RegionView<T>,
    stream: Seq<T>,
    now: u64,
    tolerance: u64,
    consumer: Consumer<T>,
    builder: ConsumerBuilder,
    pid: i32,
)
    requires
        region_holds(region, stream),
    ensures
        region_holds(region.producer_beat(now), stream),
        region_holds(region.consumers_checked(now, tolerance), stream),
        region_holds(consumer.beat(region, now), stream),
        region_holds(builder.attached_region(region, pid, now), stream),
{
}

/// What is written is read: an item that a producer publishes is what a consumer
/// that has read all before it gets next, and the consumer has then read all
/// again.
pub proof fn law_written_item_is_read<T>(
    region: RegionView<T>,
    stream: Seq<T>,
    producer: Producer<T>,
    consumer: Consumer<T>,
    item: T,
    after: Consumer<T>,
    result: ShmResult<&T>,
)
    requires
        region_holds(region, stream),
        region.slots.len() <= usize::MAX,
        region.slots.len() == producer.write_handle.queue.slot_count(),
        region.slots.len() == consumer.read_handle.queue.slot_count(),
        producer.write_handle.seq == stream.len() < usize::MAX,
        caught_up_to(consumer.read_handle, stream.len() as int),
        consumer.reads(region.published(producer.write_handle, Some(item)), after, result),
    ensures
        region_holds(
            region.published(producer.write_handle, Some(item)),
            stream.push(item),
        ),
        result == Ok::<&T, ShmError>(&item),
        caught_up_to(after.read_handle, stream.push(item).len() as int),
{
    let last = region.queue.header.last_committed_slot;
    law_publishing_appends(region.slots, last, stream, producer.write_handle, item);
    let later = region.published(producer.write_handle, Some(item));
    law_reader_gets_next_item(
        later.slots,
        later.queue.header.last_committed_slot,
        stream.push(item),
        consumer.read_handle,
        stream.len() as int,
    );
}

/// A consumer that attaches to a queue with a stream in it reads the newest item
/// first.
pub proof fn law_attached_consumer_reads_newest<T>(
    region: RegionView<T>,
    stream: Seq<T>,
    builder: ConsumerBuilder,
    consumer: Consumer<T>,
    id: usize,
    now: u64,
    after: Consumer<T>,
    result: ShmResult<&T>,
)
    requires
        region_holds(region, stream),
        stream.len() > 0,
        region.slots.len() <= usize::MAX,
        region.slots.len() == region.queue.header.n_slots,
        builder.is_fresh_consumer(
            consumer,
            region.base as int,
            region.queue.header,
            region.last_seq(),
            id,
            now,
        ),
        consumer.reads(region, after, result),
    ensures
        result == Ok::<&T, ShmError>(&stream.last()),
        caught_up_to(after.read_handle, stream.len() as int),
{
    let last = region.queue.header.last_committed_slot;
    let n = region.slots.len() as int;
    lemma_mod_bound(stream.len() + n - 1, n);
    vstd::arithmetic::div_mod::lemma_mod_add_multiples_vanish(stream.len() - 1, n);
    lemma_newest_is(last as int, stream.len() as int, n, stream.len() as int);
    law_joining_reader_gets_newest(region.slots, last, stream, consumer.read_handle);
}

/// A consumer that attaches to a queue in which nothing was published yet has missed
/// nothing: it is about to look for the first item.
pub proof fn law_consumer_of_fresh_queue_reads_from_start<T>(
    region: RegionView<T>,
    builder: ConsumerBuilder,
    consumer: Consumer<T>,
    id: usize,
    now: u64,
)
    requires
        region_holds(region, Seq::empty()),
        region.slots.len() <= usize::MAX,
        region.slots.len() == region.queue.header.n_slots,
        builder.is_fresh_consumer(
            consumer,
            region.base as int,
            region.queue.header,
            region.last_seq(),
            id,
            now,
        ),
    ensures
        caught_up_to(consumer.read_handle, 0),
{
    lemma_small_mod((region.slots.len() - 1) as nat, region.slots.len());
    law_early_reader_has_all_to_read(
        region.slots,
        region.queue.header.last_committed_slot,
        consumer.read_handle,
    );
}

/// A consumer that has read the whole stream is told that there is no data.
pub proof fn law_consumer_waits_at_end<T>(
    region: RegionView<T>,
    stream: Seq<T>,
    consumer: Consumer<T>,
    after: Consumer<T>,
    result: ShmResult<&T>,
)
    requires
        region_holds(region, stream),
        region.slots.len() == consumer.read_handle.queue.slot_count(),
        caught_up_to(consumer.read_handle, stream.len() as int),
        consumer.reads(region, after, result),
    ensures
        result == Err::<&T, ShmError>(ShmError::NoData),
        after == consumer,
{
    law_reader_waits_at_end(
        region.slots,
        region.queue.header.last_committed_slot,
        stream,
        consumer.read_handle,
    );
}

/// A reader after it has tried to read `times` times while nothing was published.
pub open spec fn after_tries<T>(
    reader: BroadcastReadHandle<T>,
    slots: Seq<Slot<T>>,
    times: nat,
) -> BroadcastReadHandle<T>
    decreases times,
{
    if times == 0 {
        reader
    } else {
        let before = after_tries(reader, slots, (times - 1) as nat);
        let seq = slots[before.cursor as int].seq;
        if seq > before.seq {
            before.after_reading(seq)
        } else {
            before
        }
    }
}

/// A reader that is not more than a ring's length behind gets every item that it
/// has not read, one after the other: its try number `times + 1` finds item number
/// `count + times + 1`.
pub proof fn law_reader_gets_all_unread_items<T>(
    slots: Seq<Slot<T>>,
    last_committed_slot: usize,
    stream: Seq<T>,
    reader: BroadcastReadHandle<T>,
    count: int,
    times: nat,
)
    requires
        holds_stream(slots, last_committed_slot, stream),
        slots.len() == reader.queue.slot_count(),
        slots.len() <= usize::MAX,
        caught_up_to(reader, count),
        count + times < stream.len() <= count + slots.len(),
    ensures
        ({
            let before = after_tries(reader, slots, times);
            let slot = slots[before.cursor as int];
            &&& caught_up_to(before, count + times)
            &&& slot.seq > before.seq
            &&& slot.data == Some(stream[count + times])
            &&& caught_up_to(after_tries(reader, slots, times + 1), count + times + 1)
        }),
    decreases times,
{
    if times > 0 {
        law_reader_gets_all_unread_items(
            slots,
            last_committed_slot,
            stream,
            reader,
            count,
            (times - 1) as nat,
        );
    }
    lemma_tries_keep_queue(reader, slots, times);
    law_reader_gets_next_item(
        slots,
        last_committed_slot,
        stream,
        after_tries(reader, slots, times),
        count + times,
    );
}

proof fn lemma_tries_keep_queue<T>(
    reader: BroadcastReadHandle<T>,
    slots: Seq<Slot<T>>,
    times: nat,
)
    ensures
        after_tries(reader, slots, times).queue == reader.queue,
    decreases times,
{
    if times > 0 {
        lemma_tries_keep_queue(reader, slots, (times - 1) as nat);
    }
}

/// A producer that was built on an object of the configured size can write to it,
/// and its numbering starts with the first item of the stream.
pub proof fn law_built_producer_is_ready<T>(
    region: RegionView<T>,
    config: QueueConfig,
    pid: i32,
    now: u64,
    producer: Producer<T>,
)
    requires
        region.slots.len() == config.num_slots,
        config.max_consumers <= region.consumers.len(),
        is_fresh_producer(
            producer,
            region.base as int,
            config,
            published_before(region, ConnectedMemoryType::New),
            now,
        ),
    ensures
        ({
            let ready = set_up_region(region, ConnectedMemoryType::New, config, pid, now);
            &&& producer.wf(ready)
            &&& region_holds(ready, Seq::empty())
            &&& producer.write_handle.seq == 0
        }),
{
    reveal(vstd::arithmetic::power2::is_pow2);
    law_new_queue_is_empty(region, config, pid, now);
}

/// A producer that has taken an object over with a stream in it can write to it and
/// goes on with the numbering where its predecessor has left off.
pub proof fn law_takeover_producer_goes_on<T>(
    region: RegionView<T>,
    config: QueueConfig,
    pid: i32,
    now: u64,
    producer: Producer<T>,
    stream: Seq<T>,
)
    requires
        region_holds(region, stream),
        region.slots.len() == config.num_slots,
        config.max_consumers <= region.consumers.len(),
        region.wf(),
        is_fresh_producer(
            producer,
            region.base as int,
            config,
            published_before(region, ConnectedMemoryType::Old),
            now,
        ),
    ensures
        ({
            let ready = set_up_region(region, ConnectedMemoryType::Old, config, pid, now);
            &&& producer.wf(ready)
            &&& region_holds(ready, stream)
            &&& producer.write_handle.seq == stream.len()
        }),
{
    let n = region.slots.len() as int;
    let k = stream.len() as int;
    lemma_mod_bound(k + n - 1, n);
    if k > 0 {
        vstd::arithmetic::div_mod::lemma_mod_add_multiples_vanish(k - 1, n);
        lemma_newest_is((k - 1) % n, k, n, k);
    }
}

/// The stream goes on across a takeover: what the new producer publishes first is
/// what a consumer reads next that had read all before, under the old producer or
/// since.
pub proof fn law_stream_goes_on_after_takeover<T>(
    region: RegionView<T>,
    config: QueueConfig,
    pid: i32,
    now: u64,
    producer: Producer<T>,
    stream: Seq<T>,
    item: T,
    consumer: Consumer<T>,
    after: Consumer<T>,
    result: ShmResult<&T>,
)
    requires
        region_holds(region, stream),
        stream.len() < usize::MAX,
        region.slots.len() == config.num_slots,
        config.max_consumers <= region.consumers.len(),
        region.wf(),
        is_fresh_producer(
            producer,
            region.base as int,
            config,
            published_before(region, ConnectedMemoryType::Old),
            now,
        ),
        region.slots.len() == consumer.read_handle.queue.slot_count(),
        caught_up_to(consumer.read_handle, stream.len() as int),
        consumer.reads(
            set_up_region(region, ConnectedMemoryType::Old, config, pid, now).published(
                producer.write_handle,
                Some(item),
            ),
            after,
            result,
        ),
    ensures
        ({
            let ready = set_up_region(region, ConnectedMemoryType::Old, config, pid, now);
            let later = ready.published(producer.write_handle, Some(item));
            &&& region_holds(later, stream.push(item))
            &&& result == Ok::<&T, ShmError>(&item)
            &&& caught_up_to(after.read_handle, (stream.len() + 1) as int)
        }),
{
    law_takeover_producer_goes_on(region, config, pid, now, producer, stream);
    let ready = set_up_region(region, ConnectedMemoryType::Old, config, pid, now);
    law_written_item_is_read(ready, stream, producer, consumer, item, after, result);
}

/// A consumer that was built on an object with a stream in it can read from it.
pub proof fn law_built_consumer_is_ready<T>(
    region: RegionView<T>,
    stream: Seq<T>,
    builder: ConsumerBuilder,
    consumer: Consumer<T>,
    id: usize,
    pid: i32,
    now: u64,
)
    requires
        region_holds(region, stream),
        region.wf(),
        region.slots.len() == region.queue.header.n_slots,
        builder.attach_outcome(region, now) == Ok::<usize, ShmError>(id),
        builder.is_fresh_consumer(
            consumer,
            region.base as int,
            region.queue.header,
            region.last_seq(),
            id,
            now,
        ),
    ensures
        consumer.wf(builder.attached_region(region, pid, now)),
{
    let n = region.slots.len() as int;
    lemma_mod_bound(stream.len() + n - 1, n);
    lemma_mod_bound(region.queue.header.last_committed_slot + 1, n);
    let max = region.queue.heartbeats.consumers.max_consumers as int;
    crate::heartbeats::lemma_first_free(
        region.consumers,
        0,
        max,
        now,
        builder.liveness_tolerance,
    );
}

/// Writing touches no heartbeat, and the place that a producer has been given for
/// its next item stays the same until it commits.
pub proof fn law_writing_leaves_heartbeats<T>(
    region: RegionView<T>,
    producer: Producer<T>,
    item: Option<T>,
)
    ensures
        region.published(producer.write_handle, item).queue.heartbeats == region.queue.heartbeats,
        region.published(producer.write_handle, item).consumers == region.consumers,
        ({
            let queue = producer.write_handle.queue;
            let next = queue.following_index(region.queue.header.last_committed_slot);
            let written = RegionView {
                slots: region.slots.update(
                    next,
                    Slot { seq: region.slots[next].seq, data: item },
                ),
                ..region
            };
            0 <= next < region.slots.len() ==> written.pending(queue) == item
        }),
{
}

/// A consumer sees the producer alive for exactly the tolerance after the
/// producer's last sign of life.
pub proof fn law_dead_producer_is_detected<T>(
    region: RegionView<T>,
    consumer: Consumer<T>,
    beat: u64,
    now: u64,
)
    ensures
        consumer.sees_producer(region.producer_beat(beat), now) <==> consumer.liveness_tolerance > 0
            && now < beat + consumer.liveness_tolerance,
{
}

/// A consumer that keeps its record alive is found by the producer: after its sign
/// of life, a check within the tolerance finds a live consumer.
pub proof fn law_beating_consumer_is_found<T>(
    region: RegionView<T>,
    consumer: Consumer<T>,
    beat: u64,
    now: u64,
    tolerance: u64,
)
    requires
        region.wf(),
        consumer.mode == HeartbeatMode::Full,
        consumer.id < region.queue.heartbeats.consumers.max_consumers,
        0 < beat,
        tolerance > 0,
        now < beat + tolerance,
    ensures
        consumer.beat(region, beat).finds_live_consumer(now, tolerance),
{
    let after = consumer.beat(region, beat);
    assert(crate::heartbeats::live(after.consumers[consumer.id as int], now, tolerance));
}

/// Taking a queue over loses no consumer: one that was alive before is found by the
/// new producer's check, though nobody has attached since.
pub proof fn law_takeover_finds_live_consumers<T>(
    region: RegionView<T>,
    config: QueueConfig,
    pid: i32,
    taken: u64,
    id: int,
    now: u64,
    tolerance: u64,
)
    requires
        config.mode == HeartbeatMode::Full,
        takeover_verdict(region.queue, config, taken) is Ok,
        0 <= id < config.max_consumers <= region.consumers.len(),
        crate::heartbeats::live(region.consumers[id], now, tolerance),
    ensures
        set_up_region(region, ConnectedMemoryType::Old, config, pid, taken).finds_live_consumer(
            now,
            tolerance,
        ),
{
}

} // verus!
