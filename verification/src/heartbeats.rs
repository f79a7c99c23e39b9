//! Liveness records of the producer and the consumers.
//!
//! A timestamp is a plain number in whatever unit the application has chosen.
//! A record is alive while its last update lies less than a tolerance back. A
//! consumer's record whose last update is zero is in nobody's use: it was never
//! claimed, or its consumer has given it up. So that nobody takes a record that was
//! claimed at time zero for one of these, no record is claimed then, unless nothing
//! is tolerated.

use vstd::prelude::*;

verus! {

/// The bytes that one consumer record takes: a process id, four bytes of
/// padding, a timestamp, and a word that is filled up to eight bytes.
pub const CONSUMER_HEARTBEAT_SIZE: usize = 24;

/// The alignment of a consumer record.
pub const CONSUMER_HEARTBEAT_ALIGN: usize = 8;

/// Which liveness records a queue keeps. Every process that uses a queue has
/// to choose the same mode.
#[derive(Clone, Copy, Debug, PartialEq, Eq, Structural)]
pub enum HeartbeatMode {
    /// The producer and every consumer keep a record.
    Full,
    /// Only the producer keeps a record; consumers are not tracked.
    ProducerOnly,
    /// Nobody keeps a record.
    Disabled,
}

/// The last sign of life of one process.
#[derive(Clone, Copy, Debug, PartialEq, Eq, Structural)]
pub struct ItemHeartbeat {
    pub pid: i32,
    pub last_update_us: u64,
}

/// The record of one consumer. `sequence` counts how often it was claimed.
#[derive(Clone, Copy, Debug, PartialEq, Eq, Structural)]
pub struct ConsumerHeartbeat {
    pub heartbeat: ItemHeartbeat,
    pub sequence: usize,
}

/// What describes the array of consumer records. `prev_consumer` is the index
/// of a consumer that was alive when last looked at, or `max_consumers` where
/// none is known.
#[derive(Clone, Copy, Debug, PartialEq, Eq, Structural)]
pub struct ConsumerHeartbeatsMeta {
    pub prev_consumer: usize,
    pub buffer_offset: usize,
    pub max_consumers: usize,
}

/// The record of the producer.
#[derive(Clone, Copy, Debug, PartialEq, Eq, Structural)]
pub struct ProducerHeartbeat {
    pub heartbeat: ItemHeartbeat,
}

/// The liveness part of the queue's fixed head.
#[derive(Clone, Copy, Debug, PartialEq, Eq, Structural)]
pub struct Heartbeats {
    pub producer: ProducerHeartbeat,
    pub consumers: ConsumerHeartbeatsMeta,
}

/// Whether a record that was updated at `value` is alive at `now`. One that was
/// updated after `now` is, unless nothing is tolerated.
pub open spec fn alive_at(value: u64, now: u64, tolerance: u64) -> bool {
    tolerance > 0 && now < value + tolerance
}

/// Whether a consumer's record that was updated at `value` is alive at `now`. One
/// whose last update is zero is not, at any time.
pub open spec fn in_use_at(value: u64, now: u64, tolerance: u64) -> bool {
    value != 0 && alive_at(value, now, tolerance)
}

/// Whether a consumer's record that was updated at `value` can be claimed at `now`:
/// it is not alive, or nobody uses it.
pub open spec fn free_at(value: u64, now: u64, tolerance: u64) -> bool {
    !alive_at(value, now, tolerance) || (value == 0 && now > 0)
}

/// Whether a consumer's record can be claimed at `now`.
pub open spec fn free(consumer: ConsumerHeartbeat, now: u64, tolerance: u64) -> bool {
    free_at(consumer.heartbeat.last_update_us, now, tolerance)
}

/// Whether a consumer's record is alive at `now`.
pub open spec fn live(consumer: ConsumerHeartbeat, now: u64, tolerance: u64) -> bool {
    in_use_at(consumer.heartbeat.last_update_us, now, tolerance)
}

/// The record after `pid` claimed it at `now`.
pub open spec fn claimed(consumer: ConsumerHeartbeat, pid: i32, now: u64) -> ConsumerHeartbeat {
    ConsumerHeartbeat {
        heartbeat: ItemHeartbeat { pid, last_update_us: now },
        sequence: next_sequence(consumer.sequence),
    }
}

/// The claim counter after one more claim. It starts over at zero.
pub open spec fn next_sequence(sequence: usize) -> usize {
    if sequence == usize::MAX {
        0
    } else {
        (sequence + 1) as usize
    }
}

/// The record with its last update at `value`.
pub open spec fn beaten(consumer: ConsumerHeartbeat, value: u64) -> ConsumerHeartbeat {
    ConsumerHeartbeat {
        heartbeat: ItemHeartbeat { last_update_us: value, ..consumer.heartbeat },
        ..consumer
    }
}

/// The first live consumer from `from` on, or `max` where there is none.
pub open spec fn first_live_from(
    buffer: Seq<ConsumerHeartbeat>,
    from: int,
    max: int,
    now: u64,
    tolerance: u64,
) -> int
    decreases max - from,
{
    if from >= max {
        max
    } else if live(buffer[from], now, tolerance) {
        from
    } else {
        first_live_from(buffer, from + 1, max, now, tolerance)
    }
}

/// The first record from `from` on that can be claimed, or `max`.
pub open spec fn first_free_from(
    buffer: Seq<ConsumerHeartbeat>,
    from: int,
    max: int,
    now: u64,
    tolerance: u64,
) -> int
    decreases max - from,
{
    if from >= max {
        max
    } else if free(buffer[from], now, tolerance) {
        from
    } else {
        first_free_from(buffer, from + 1, max, now, tolerance)
    }
}

/// What `first_live_from` finds: a live consumer with none before it, or the
/// end where none is alive.
pub proof fn lemma_first_live(
    buffer: Seq<ConsumerHeartbeat>,
    from: int,
    max: int,
    now: u64,
    tolerance: u64,
)
    requires
        from <= max,
    ensures
        ({
            let found = first_live_from(buffer, from, max, now, tolerance);
            &&& from <= found <= max
            &&& found < max ==> live(buffer[found], now, tolerance)
            &&& forall|i: int| from <= i < found ==> !live(#[trigger] buffer[i], now, tolerance)
        }),
    decreases max - from,
{
    if from < max && !live(buffer[from], now, tolerance) {
        lemma_first_live(buffer, from + 1, max, now, tolerance);
    }
}

/// What `first_free_from` finds: a free record with none before it, or the end
/// where no record is free.
pub proof fn lemma_first_free(
    buffer: Seq<ConsumerHeartbeat>,
    from: int,
    max: int,
    now: u64,
    tolerance: u64,
)
    requires
        from <= max,
    ensures
        ({
            let found = first_free_from(buffer, from, max, now, tolerance);
            &&& from <= found <= max
            &&& found < max ==> free(buffer[found], now, tolerance)
            &&& forall|i: int| from <= i < found ==> !free(#[trigger] buffer[i], now, tolerance)
        }),
    decreases max - from,
{
    if from < max && !free(buffer[from], now, tolerance) {
        lemma_first_free(buffer, from + 1, max, now, tolerance);
    }
}

impl ItemHeartbeat {
    /// A record of `pid` that was never updated.
    pub fn new(pid: i32) -> (r: Self)
        ensures
            r == (ItemHeartbeat { pid, last_update_us: 0 }),
    {
        ItemHeartbeat { pid, last_update_us: 0 }
    }

    /// Notes `val` as the time of the last sign of life.
    pub fn update(&mut self, val: u64)
        ensures
            *final(self) == (ItemHeartbeat { last_update_us: val, ..*old(self) }),
    {
        self.last_update_us = val;
    }

    /// The time of the last sign of life.
    pub fn get_value(&self) -> (r: u64)
        ensures
            r == self.last_update_us,
    {
        self.last_update_us
    }

    /// Whether the last sign of life lies less than `tolerance` before `now`.
    pub fn is_alive(&self, now: u64, tolerance: u64) -> (r: bool)
        ensures
            r == alive_at(self.last_update_us, now, tolerance),
    {
        now.saturating_sub(self.get_value()) < tolerance
    }

    /// The process that the record belongs to.
    pub fn get_pid(&self) -> (r: i32)
        ensures
            r == self.pid,
    {
        self.pid
    }

    /// Whether a consumer's record with this heartbeat is in use: it is alive, and
    /// its last sign of life is not the zero of a record that nobody uses.
    pub fn is_in_use(&self, now: u64, tolerance: u64) -> (r: bool)
        ensures
            r == in_use_at(self.last_update_us, now, tolerance),
    {
        self.get_value() != 0 && self.is_alive(now, tolerance)
    }

    /// Whether a consumer's record with this heartbeat can be claimed: it is not
    /// alive, or its last sign of life is the zero of a record that nobody uses. At
    /// time zero that zero may also be a sign of life.
    pub fn is_free(&self, now: u64, tolerance: u64) -> (r: bool)
        ensures
            r == free_at(self.last_update_us, now, tolerance),
    {
        !self.is_alive(now, tolerance) || (self.get_value() == 0 && now > 0)
    }

    fn set_pid(&mut self, pid: i32)
        ensures
            *final(self) == (ItemHeartbeat { pid, ..*old(self) }),
    {
        self.pid = pid;
    }
}

impl ConsumerHeartbeat {
    /// The consumer's sign of life.
    pub fn get_heartbeat(&self) -> (r: &ItemHeartbeat)
        ensures
            *r == self.heartbeat,
    {
        &self.heartbeat
    }

    /// Claims the record where it is free: it is marked alive at `now` and its claim
    /// counter moves on. One that is not free stays as it is.
    pub fn try_reserve(&mut self, now: u64, tolerance: u64) -> (r: bool)
        ensures
            r == free(*old(self), now, tolerance),
            r ==> *final(self) == claimed(*old(self), old(self).heartbeat.pid, now),
            !r ==> *final(self) == *old(self),
    {
        if self.heartbeat.is_free(now, tolerance) {
            self.heartbeat.update(now);
            self.sequence = self.sequence.wrapping_add(1);
            true
        } else {
            false
        }
    }
}

impl ConsumerHeartbeatsMeta {
    /// Describes `max_consumers` records that start `buffer_offset` bytes after
    /// this description. No live consumer is known.
    pub fn new(max_consumers: usize, buffer_offset: usize) -> (r: Self)
        ensures
            r == (ConsumerHeartbeatsMeta {
                prev_consumer: max_consumers,
                buffer_offset,
                max_consumers,
            }),
    {
        ConsumerHeartbeatsMeta { prev_consumer: max_consumers, buffer_offset, max_consumers }
    }

    /// The address of the record `index`, for a description that stands at
    /// `meta_address`.
    pub fn get_buffer_item(&self, meta_address: usize, index: usize) -> (r: usize)
        requires
            meta_address + self.buffer_offset + index * CONSUMER_HEARTBEAT_SIZE <= usize::MAX,
        ensures
            r == meta_address + self.buffer_offset + index * CONSUMER_HEARTBEAT_SIZE,
    {
        assert(0 <= index * CONSUMER_HEARTBEAT_SIZE) by (nonlinear_arith);
        meta_address + self.buffer_offset + index * CONSUMER_HEARTBEAT_SIZE
    }

    /// What `is_any_consumer_alive` answers: there is a live consumer.
    pub open spec fn finds_live(
        self,
        buffer: Seq<ConsumerHeartbeat>,
        now: u64,
        tolerance: u64,
    ) -> bool {
        exists|i: int| 0 <= i < self.max_consumers && live(#[trigger] buffer[i], now, tolerance)
    }

    /// The description after `is_any_consumer_alive`: where no consumer was
    /// remembered, or one that is no longer alive, the first live one is.
    pub open spec fn after_check(
        self,
        buffer: Seq<ConsumerHeartbeat>,
        now: u64,
        tolerance: u64,
    ) -> Self {
        if self.prev_consumer < self.max_consumers && live(
            buffer[self.prev_consumer as int],
            now,
            tolerance,
        ) {
            self
        } else {
            ConsumerHeartbeatsMeta {
                prev_consumer: first_live_from(
                    buffer,
                    0,
                    self.max_consumers as int,
                    now,
                    tolerance,
                ) as usize,
                ..self
            }
        }
    }

    /// Claims the first free record for the process `pid` and returns its index, or
    /// returns `None` where no record is free.
    pub fn new_consumer(
        &mut self,
        buffer: &mut Vec<ConsumerHeartbeat>,
        pid: i32,
        now: u64,
        tolerance: u64,
    ) -> (r: Option<usize>)
        requires
            old(buffer)@.len() >= old(self).max_consumers,
        ensures
            final(buffer)@.len() == old(buffer)@.len(),
            r matches Some(id) ==> {
                &&& id < old(self).max_consumers
                &&& free(old(buffer)@[id as int], now, tolerance)
            },
            ({
                let max = old(self).max_consumers as int;
                let free = first_free_from(old(buffer)@, 0, max, now, tolerance);
                if free < max {
                    &&& r == Some(free as usize)
                    &&& final(buffer)@ == old(buffer)@.update(
                        free,
                        claimed(old(buffer)@[free], pid, now),
                    )
                    &&& *final(self) == (ConsumerHeartbeatsMeta {
                        prev_consumer: free as usize,
                        ..*old(self)
                    })
                } else {
                    &&& r is None
                    &&& final(buffer)@ == old(buffer)@
                    &&& *final(self) == *old(self)
                }
            }),
    {
        let ghost before = buffer@;
        let max = self.max_consumers;
        let mut i: usize = 0;
        while i < max
            invariant
                i <= max == self.max_consumers,
                *self == *old(self),
                buffer@ == before,
                before == old(buffer)@,
                before.len() >= max,
                first_free_from(before, 0, max as int, now, tolerance) == first_free_from(
                    before,
                    i as int,
                    max as int,
                    now,
                    tolerance,
                ),
            decreases max - i,
        {
            let mut consumer = buffer[i];
            if consumer.try_reserve(now, tolerance) {
                consumer.heartbeat.set_pid(pid);
                consumer.heartbeat.update(now);
                buffer.set(i, consumer);
                self.prev_consumer = i;
                return Some(i);
            }
            i = i + 1;
        }
        None
    }

    /// Marks the record `id` stale, so that it can be claimed again. `false`
    /// where there is no such record.
    pub fn drop_consumer(&self, buffer: &mut Vec<ConsumerHeartbeat>, id: usize) -> (r: bool)
        requires
            old(buffer)@.len() >= self.max_consumers,
        ensures
            r == (id < self.max_consumers),
            r ==> final(buffer)@ == old(buffer)@.update(
                id as int,
                beaten(old(buffer)@[id as int], 0),
            ),
            !r ==> final(buffer)@ == old(buffer)@,
    {
        if id >= self.max_consumers {
            return false;
        }
        let mut consumer = buffer[id];
        consumer.heartbeat.update(0);
        buffer.set(id, consumer);
        true
    }

    /// Notes a sign of life of the consumer `id` at `now`. An `id` that has no
    /// record changes nothing.
    pub fn update_heartbeat(&self, buffer: &mut Vec<ConsumerHeartbeat>, id: usize, now: u64)
        requires
            old(buffer)@.len() >= self.max_consumers,
        ensures
            final(buffer)@ == if id < self.max_consumers {
                old(buffer)@.update(id as int, beaten(old(buffer)@[id as int], now))
            } else {
                old(buffer)@
            },
    {
        if id >= self.max_consumers {
            return;
        }
        let mut consumer = buffer[id];
        consumer.heartbeat.update(now);
        buffer.set(id, consumer);
    }

    /// Looks for the first live consumer and remembers what it finds.
    fn find_next_consumer(
        &mut self,
        buffer: &Vec<ConsumerHeartbeat>,
        now: u64,
        tolerance: u64,
    ) -> (r: usize)
        requires
            buffer@.len() >= old(self).max_consumers,
        ensures
            r == first_live_from(buffer@, 0, old(self).max_consumers as int, now, tolerance),
            *final(self) == (ConsumerHeartbeatsMeta { prev_consumer: r, ..*old(self) }),
    {
        let max = self.max_consumers;
        let mut i: usize = 0;
        while i < max && !buffer[i].get_heartbeat().is_in_use(now, tolerance)
            invariant
                i <= max == self.max_consumers,
                *self == *old(self),
                buffer@.len() >= max,
                first_live_from(buffer@, 0, max as int, now, tolerance) == first_live_from(
                    buffer@,
                    i as int,
                    max as int,
                    now,
                    tolerance,
                ),
            decreases max - i,
        {
            i = i + 1;
        }
        self.prev_consumer = i;
        i
    }

    /// Whether a consumer is alive. The remembered consumer is asked first; only
    /// where there is none, or where it is not alive, are the others.
    pub fn is_any_consumer_alive(
        &mut self,
        buffer: &Vec<ConsumerHeartbeat>,
        now: u64,
        tolerance: u64,
    ) -> (r: bool)
        requires
            buffer@.len() >= old(self).max_consumers,
        ensures
            r == old(self).finds_live(buffer@, now, tolerance),
            *final(self) == old(self).after_check(buffer@, now, tolerance),
    {
        proof {
            lemma_first_live(buffer@, 0, self.max_consumers as int, now, tolerance);
        }
        // this is the fast path
        if self.prev_consumer < self.max_consumers
            && buffer[self.prev_consumer].get_heartbeat().is_in_use(now, tolerance) {
            return true;
        }
        self.find_next_consumer(buffer, now, tolerance) < self.max_consumers
    }
}

/// A claimed record is found: as long as it stays alive, the check that a
/// producer makes afterwards says that a consumer is alive, whatever the other
/// records hold by then.
pub proof fn law_claimed_consumer_is_found(
    meta: ConsumerHeartbeatsMeta,
    buffer: Seq<ConsumerHeartbeat>,
    id: int,
    now: u64,
    tolerance: u64,
)
    requires
        0 <= id < meta.max_consumers <= buffer.len(),
        live(buffer[id], now, tolerance),
    ensures
        ({
            let attached = ConsumerHeartbeatsMeta { prev_consumer: id as usize, ..meta };
            &&& attached.finds_live(buffer, now, tolerance)
            &&& attached.after_check(buffer, now, tolerance) == attached
        }),
{
}

/// The check is exact about the living: while any consumer is alive it says so,
/// whatever was remembered, so also after a producer has taken the queue over and
/// after a check that found nobody.
pub proof fn law_live_consumer_is_reported(
    meta: ConsumerHeartbeatsMeta,
    buffer: Seq<ConsumerHeartbeat>,
    id: int,
    now: u64,
    tolerance: u64,
)
    requires
        0 <= id < meta.max_consumers <= buffer.len(),
        live(buffer[id], now, tolerance),
    ensures
        meta.finds_live(buffer, now, tolerance),
        ({
            let after = meta.after_check(buffer, now, tolerance);
            &&& after.prev_consumer < after.max_consumers
            &&& live(buffer[after.prev_consumer as int], now, tolerance)
        }),
{
    lemma_first_live(buffer, 0, meta.max_consumers as int, now, tolerance);
}

/// The check is exact about the dead: once no consumer is alive it says so.
pub proof fn law_no_live_consumer_is_reported(
    meta: ConsumerHeartbeatsMeta,
    buffer: Seq<ConsumerHeartbeat>,
    now: u64,
    tolerance: u64,
)
    requires
        forall|i: int| 0 <= i < meta.max_consumers ==> !live(#[trigger] buffer[i], now, tolerance),
    ensures
        !meta.finds_live(buffer, now, tolerance),
        meta.after_check(buffer, now, tolerance).prev_consumer == meta.max_consumers,
{
    lemma_first_live(buffer, 0, meta.max_consumers as int, now, tolerance);
}

/// Two consumers never share a record while the first is alive: a record that
/// is alive is not the one that is claimed.
pub proof fn law_live_record_is_not_claimed(
    buffer: Seq<ConsumerHeartbeat>,
    max: int,
    id: int,
    now: u64,
    tolerance: u64,
)
    requires
        0 <= id < max <= buffer.len(),
        live(buffer[id], now, tolerance),
    ensures
        first_free_from(buffer, 0, max, now, tolerance) != id,
{
    lemma_first_free(buffer, 0, max, now, tolerance);
}

/// A claim fails if and only if no record is free. Once the clock has left zero that
/// is where every record is alive; at zero it is where something is tolerated.
pub proof fn law_claim_fails_only_when_full(
    buffer: Seq<ConsumerHeartbeat>,
    max: int,
    now: u64,
    tolerance: u64,
)
    requires
        0 <= max <= buffer.len(),
    ensures
        first_free_from(buffer, 0, max, now, tolerance) == max <==> forall|i: int|
            0 <= i < max ==> !free(#[trigger] buffer[i], now, tolerance),
        now > 0 ==> (first_free_from(buffer, 0, max, now, tolerance) == max <==> forall|i: int|
            0 <= i < max ==> live(#[trigger] buffer[i], now, tolerance)),
        now == 0 && max > 0 ==> (first_free_from(buffer, 0, max, now, tolerance) == max
            <==> tolerance > 0),
{
    lemma_first_free(buffer, 0, max, now, tolerance);
    if now > 0 {
        assert(forall|i: int|
            0 <= i < max ==> (live(#[trigger] buffer[i], now, tolerance) <==> !free(
                buffer[i],
                now,
                tolerance,
            )));
    }
    if max > 0 {
        assert(now == 0 ==> (free(buffer[0], now, tolerance) <==> tolerance == 0));
    }
}

/// A claim makes the record alive for as long as the tolerance lasts, and leaves it
/// with the claiming process.
pub proof fn law_claim_lasts(
    consumer: ConsumerHeartbeat,
    pid: i32,
    now: u64,
    later: u64,
    tolerance: u64,
)
    requires
        tolerance > 0,
        free(consumer, now, tolerance),
    ensures
        claimed(consumer, pid, now).heartbeat.pid == pid,
        live(claimed(consumer, pid, now), later, tolerance) <==> later < now + tolerance,
{
}

/// A record that was just claimed is not claimed again while the claim lasts: a
/// second claim gets another record or none, and of that record alone it gets it
/// exactly once the claim is over.
pub proof fn law_record_is_not_claimed_twice(
    buffer: Seq<ConsumerHeartbeat>,
    max: int,
    pid: i32,
    now: u64,
    tolerance: u64,
    later: u64,
    later_tolerance: u64,
)
    requires
        0 <= max <= buffer.len(),
        tolerance > 0,
        first_free_from(buffer, 0, max, now, tolerance) < max,
    ensures
        ({
            let id = first_free_from(buffer, 0, max, now, tolerance);
            let record = claimed(buffer[id], pid, now);
            let second = first_free_from(
                buffer.update(id, record),
                0,
                max,
                later,
                later_tolerance,
            );
            &&& now > 0
            &&& free(record, later, later_tolerance) <==> !alive_at(now, later, later_tolerance)
            &&& alive_at(now, later, later_tolerance) ==> second != id
            &&& later < now + tolerance && later_tolerance >= tolerance ==> second != id
        }),
{
    let id = first_free_from(buffer, 0, max, now, tolerance);
    lemma_first_free(buffer, 0, max, now, tolerance);
    lemma_first_free(
        buffer.update(id, claimed(buffer[id], pid, now)),
        0,
        max,
        later,
        later_tolerance,
    );
}

/// A dropped record is not alive at any time, and once the clock has left zero it is
/// free at once.
pub proof fn law_dropped_record_is_free(consumer: ConsumerHeartbeat, now: u64, tolerance: u64)
    ensures
        !live(beaten(consumer, 0), now, tolerance),
        now > 0 ==> free(beaten(consumer, 0), now, tolerance),
{
}

/// Where records were never used there is room once the clock has left zero: the
/// first of them is the one that is claimed, whatever is tolerated.
pub proof fn law_unused_records_are_free(
    buffer: Seq<ConsumerHeartbeat>,
    max: int,
    now: u64,
    tolerance: u64,
)
    requires
        now > 0,
        0 < max <= buffer.len(),
        forall|i: int|
            0 <= i < max ==> (#[trigger] buffer[i]).heartbeat.last_update_us == 0,
    ensures
        first_free_from(buffer, 0, max, now, tolerance) == 0,
{
}

} // verus!
