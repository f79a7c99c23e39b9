//! A readable picture of a queue object, for debugging: its measures, a map of
//! its sections, and its bytes with the sections marked.

use crate::heartbeats::{HeartbeatMode, CONSUMER_HEARTBEAT_SIZE};
use crate::layout::{
    consumers_meta_offset, consumers_meta_offset_spec, header_size, header_size_spec, queue_size,
    queue_size_spec, ShmQueue, ShmState,
};
use crate::queue::{lemma_slot_layout, slot_align, slot_size, BroadCastQueue, SlotLayout};
use crate::text::{
    decimal, digits, padded_hex, push_decimal, push_digits, push_padded_hex, texts,
};
use vstd::prelude::*;
use vstd::string::*;

verus! {

/// A part of the object.
#[derive(Clone, Copy, Debug, PartialEq, Eq, Structural)]
pub enum Section {
    Header { size: usize },
    Heartbeats { size: usize },
    ProducerHeartbeat,
    ConsumersMeta,
    QueueEnd { size: usize },
    RecordsBegin { consumers: usize },
    RecordsEnd { size: usize },
    Data { slot_size: usize, slots: usize },
    Consumer { index: usize },
    Slot { index: usize },
}

/// Where a part of the object starts or ends.
#[derive(Clone, Copy, Debug, PartialEq, Eq, Structural)]
pub struct Boundary {
    pub offset: usize,
    pub section: Section,
}

/// The measures of an object, all offsets counted from its first byte.
#[derive(Clone, Copy, Debug, PartialEq, Eq, Structural)]
pub struct Measures {
    pub mode: HeartbeatMode,
    pub buffer_offset: usize,
    pub max_consumers: usize,
    pub records_begin: usize,
    pub records_size: usize,
    pub records_end: usize,
    pub data_begin: usize,
    pub slot: SlotLayout,
    pub n_slots: usize,
    pub total: usize,
}

impl Section {
    /// What the map says of the part.
    pub open spec fn text(self) -> Seq<char> {
        match self {
            Section::Header { size } => "HEADER BEGIN (size = "@ + decimal(size as nat)
                + " bytes)"@,
            Section::Heartbeats { size } => "HEARTBEATS BEGIN (size = "@ + decimal(size as nat)
                + " bytes)"@,
            Section::ProducerHeartbeat => "PRODUCER HEARTBEAT"@,
            Section::ConsumersMeta => "CONSUMER HEARTBEAT META"@,
            Section::QueueEnd { size } => "SHMQUEUE END (size = "@ + decimal(size as nat)
                + " bytes)"@,
            Section::RecordsBegin { consumers } =>
                "CONSUMER HEARTBEAT BUFFER BEGIN (item size = "@ + decimal(
                CONSUMER_HEARTBEAT_SIZE as nat,
            ) + " bytes, consumers = "@ + decimal(consumers as nat) + ")"@,
            Section::RecordsEnd { size } => "CONSUMER HEARTBEAT BUFFER END (size = "@ + decimal(
                size as nat,
            ) + " bytes)"@,
            Section::Data { slot_size, slots } =>
                "DATA BUFFER BEGIN (aligned slot area, slot size = "@ + decimal(slot_size as nat)
                + " bytes, slots = "@ + decimal(slots as nat) + ")"@,
            Section::Consumer { index } => "CONSUMER HEARTBEAT "@ + decimal(index as nat)
                + " BEGIN"@,
            Section::Slot { index } => "SLOT "@ + decimal(index as nat) + " BEGIN"@,
        }
    }

    /// Appends what the map says of the part.
    pub fn push_text(&self, out: &mut String)
        ensures
            final(out)@ == old(out)@ + self.text(),
    {
        match *self {
            Section::Header { size } => {
                push_number(out, "HEADER BEGIN (size = ", size, " bytes)");
            },
            Section::Heartbeats { size } => {
                push_number(out, "HEARTBEATS BEGIN (size = ", size, " bytes)");
            },
            Section::ProducerHeartbeat => {
                out.append("PRODUCER HEARTBEAT");
            },
            Section::ConsumersMeta => {
                out.append("CONSUMER HEARTBEAT META");
            },
            Section::QueueEnd { size } => {
                push_number(out, "SHMQUEUE END (size = ", size, " bytes)");
            },
            Section::RecordsBegin { consumers } => {
                push_number(
                    out,
                    "CONSUMER HEARTBEAT BUFFER BEGIN (item size = ",
                    CONSUMER_HEARTBEAT_SIZE,
                    " bytes, consumers = ",
                );
                push_number(out, "", consumers, ")");
                proof {
                    reveal_strlit("");
                }
            },
            Section::RecordsEnd { size } => {
                push_number(out, "CONSUMER HEARTBEAT BUFFER END (size = ", size, " bytes)");
            },
            Section::Data { slot_size, slots } => {
                push_number(
                    out,
                    "DATA BUFFER BEGIN (aligned slot area, slot size = ",
                    slot_size,
                    " bytes, slots = ",
                );
                push_number(out, "", slots, ")");
                proof {
                    reveal_strlit("");
                }
            },
            Section::Consumer { index } => {
                push_number(out, "CONSUMER HEARTBEAT ", index, " BEGIN");
            },
            Section::Slot { index } => {
                push_number(out, "SLOT ", index, " BEGIN");
            },
        }
    }
}

fn push_number(out: &mut String, before: &str, number: usize, after: &str)
    ensures
        final(out)@ == old(out)@ + (before@ + decimal(number as nat) + after@),
{
    out.append(before);
    push_decimal(out, number);
    out.append(after);
    assert(out@ =~= old(out)@ + (before@ + decimal(number as nat) + after@));
}

/// Where the consumer records of `queue` start.
pub open spec fn records_begin_spec(queue: ShmQueue) -> int {
    consumers_meta_offset_spec() + queue.heartbeats.consumers.buffer_offset
}

/// Where the consumer records of `queue` end.
pub open spec fn records_end_spec(queue: ShmQueue) -> int {
    records_begin_spec(queue) + queue.heartbeats.consumers.max_consumers * CONSUMER_HEARTBEAT_SIZE
}

/// Where the slots of `queue` end.
pub open spec fn total_spec<T>(queue: ShmQueue) -> int {
    queue.header.queue_offset + queue.header.n_slots * slot_size::<T>()
}

/// Every offset can be counted in a word.
pub open spec fn measurable<T>(queue: ShmQueue, mode: HeartbeatMode) -> bool {
    &&& total_spec::<T>(queue) <= usize::MAX
    &&& mode == HeartbeatMode::Full ==> records_end_spec(queue) <= usize::MAX
}

impl Measures {
    /// The measures that the fixed head of an object gives. Where consumers are
    /// not tracked there are no records, and they end with the fixed head.
    pub open spec fn of<T>(queue: ShmQueue, mode: HeartbeatMode) -> Self {
        let full = mode == HeartbeatMode::Full;
        let consumers = queue.heartbeats.consumers;
        let max_consumers = if full {
            consumers.max_consumers
        } else {
            0
        };
        let records_begin = if full {
            records_begin_spec(queue)
        } else {
            queue_size_spec(mode)
        };
        let records_size = max_consumers * CONSUMER_HEARTBEAT_SIZE;
        Measures {
            mode,
            buffer_offset: if full {
                consumers.buffer_offset
            } else {
                0
            },
            max_consumers,
            records_begin: records_begin as usize,
            records_size: records_size as usize,
            records_end: (records_begin + records_size) as usize,
            data_begin: queue.header.queue_offset,
            slot: SlotLayout {
                size: slot_size::<T>() as usize,
                align: slot_align::<T>() as usize,
            },
            n_slots: queue.header.n_slots,
            total: total_spec::<T>(queue) as usize,
        }
    }

    /// Records and slots lie before their ends.
    pub open spec fn wf(self) -> bool {
        &&& self.records_size == self.max_consumers * CONSUMER_HEARTBEAT_SIZE
        &&& self.records_end == self.records_begin + self.records_size
        &&& self.total == self.data_begin + self.n_slots * self.slot.size
    }

    /// Takes the measures of an object from its fixed head, or says with `None`
    /// that they are beyond what can be counted in a word.
    pub fn take<T>(queue: &ShmQueue, mode: HeartbeatMode) -> (r: Option<Self>)
        ensures
            r == if measurable::<T>(*queue, mode) {
                Some(Self::of::<T>(*queue, mode))
            } else {
                None
            },
            r is Some ==> r->0.wf(),
    {
        proof {
            lemma_slot_layout::<T>();
        }
        assert(queue.header.n_slots * slot_size::<T>() >= 0) by (nonlinear_arith)
            requires
                slot_size::<T>() >= 0,
        ;
        let slot = BroadCastQueue::<T>::slot_layout();
        let ring: usize = queue.header.n_slots.checked_mul(slot.size)?;
        let total: usize = queue.header.queue_offset.checked_add(ring)?;
        let consumers = &queue.heartbeats.consumers;
        let full: bool = mode == HeartbeatMode::Full;
        let max_consumers: usize = if full {
            consumers.max_consumers
        } else {
            0
        };
        let buffer_offset: usize = if full {
            consumers.buffer_offset
        } else {
            0
        };
        let records_begin: usize = if full {
            consumers_meta_offset().checked_add(buffer_offset)?
        } else {
            queue_size(mode)
        };
        let records_size: usize = max_consumers.checked_mul(CONSUMER_HEARTBEAT_SIZE)?;
        let records_end: usize = records_begin.checked_add(records_size)?;
        Some(
            Measures {
                mode,
                buffer_offset,
                max_consumers,
                records_begin,
                records_size,
                records_end,
                data_begin: queue.header.queue_offset,
                slot,
                n_slots: queue.header.n_slots,
                total,
            },
        )
    }

    /// The boundaries of the parts that there is one of, in the order of the
    /// layout.
    pub open spec fn fixed_boundaries(self) -> Seq<Boundary> {
        let heartbeats = header_size_spec() as usize;
        let queue_end = queue_size_spec(self.mode) as usize;
        let head = seq![Boundary { offset: 0, section: Section::Header { size: heartbeats } }];
        let producer = if self.mode == HeartbeatMode::Disabled {
            seq![]
        } else {
            seq![
                Boundary {
                    offset: heartbeats,
                    section: Section::Heartbeats { size: (queue_end - heartbeats) as usize },
                },
                Boundary { offset: heartbeats, section: Section::ProducerHeartbeat },
            ]
        };
        let meta = if self.mode == HeartbeatMode::Full {
            seq![
                Boundary {
                    offset: consumers_meta_offset_spec() as usize,
                    section: Section::ConsumersMeta,
                },
            ]
        } else {
            seq![]
        };
        let end = seq![
            Boundary { offset: queue_end, section: Section::QueueEnd { size: queue_end } },
        ];
        let records = if self.mode == HeartbeatMode::Full {
            seq![
                Boundary {
                    offset: self.records_begin,
                    section: Section::RecordsBegin { consumers: self.max_consumers },
                },
                Boundary {
                    offset: self.records_end,
                    section: Section::RecordsEnd { size: self.records_size },
                },
            ]
        } else {
            seq![]
        };
        let data = seq![
            Boundary {
                offset: self.data_begin,
                section: Section::Data { slot_size: self.slot.size, slots: self.n_slots },
            },
        ];
        head + producer + meta + end + records + data
    }

    /// The boundaries of the first `count` consumer records.
    pub open spec fn record_boundaries(self, count: nat) -> Seq<Boundary> {
        Seq::new(
            count,
            |i: int|
                Boundary {
                    offset: (self.records_begin + i * CONSUMER_HEARTBEAT_SIZE) as usize,
                    section: Section::Consumer { index: i as usize },
                },
        )
    }

    /// The boundaries of the first `count` slots.
    pub open spec fn slot_boundaries(self, count: nat) -> Seq<Boundary> {
        Seq::new(
            count,
            |i: int|
                Boundary {
                    offset: (self.data_begin + i * self.slot.size) as usize,
                    section: Section::Slot { index: i as usize },
                },
        )
    }

    /// All boundaries, as they are found.
    pub open spec fn all_boundaries(self) -> Seq<Boundary> {
        self.fixed_boundaries() + self.record_boundaries(self.max_consumers as nat)
            + self.slot_boundaries(self.n_slots as nat)
    }

    /// All boundaries by offset. Those at the same offset stay in the order in
    /// which they are found.
    pub fn section_map(&self) -> (r: Vec<Boundary>)
        requires
            self.wf(),
        ensures
            r@ == sorted_by_offset(self.all_boundaries()),
    {
        let mut found: Vec<Boundary> = Vec::new();
        let heartbeats = header_size();
        let queue_end = queue_size(self.mode);
        proof {
            crate::numeric::lemma_round_up(16 + 3 * crate::layout::word_size(), 8);
        }
        found.push(Boundary { offset: 0, section: Section::Header { size: heartbeats } });
        if self.mode != HeartbeatMode::Disabled {
            found.push(
                Boundary {
                    offset: heartbeats,
                    section: Section::Heartbeats { size: queue_end - heartbeats },
                },
            );
            found.push(Boundary { offset: heartbeats, section: Section::ProducerHeartbeat });
        }
        if self.mode == HeartbeatMode::Full {
            found.push(
                Boundary { offset: consumers_meta_offset(), section: Section::ConsumersMeta },
            );
        }
        found.push(Boundary { offset: queue_end, section: Section::QueueEnd { size: queue_end } });
        if self.mode == HeartbeatMode::Full {
            found.push(
                Boundary {
                    offset: self.records_begin,
                    section: Section::RecordsBegin { consumers: self.max_consumers },
                },
            );
            found.push(
                Boundary {
                    offset: self.records_end,
                    section: Section::RecordsEnd { size: self.records_size },
                },
            );
        }
        found.push(
            Boundary {
                offset: self.data_begin,
                section: Section::Data { slot_size: self.slot.size, slots: self.n_slots },
            },
        );
        assert(found@ =~= self.fixed_boundaries());
        let mut i: usize = 0;
        while i < self.max_consumers
            invariant
                self.wf(),
                i <= self.max_consumers,
                found@ == self.fixed_boundaries() + self.record_boundaries(i as nat),
            decreases self.max_consumers - i,
        {
            assert(i * CONSUMER_HEARTBEAT_SIZE <= self.max_consumers * CONSUMER_HEARTBEAT_SIZE)
                by (nonlinear_arith)
                requires
                    i <= self.max_consumers,
            ;
            found.push(
                Boundary {
                    offset: self.records_begin + i * CONSUMER_HEARTBEAT_SIZE,
                    section: Section::Consumer { index: i },
                },
            );
            i = i + 1;
            assert(found@ =~= self.fixed_boundaries() + self.record_boundaries(i as nat));
        }
        let mut j: usize = 0;
        assert(found@ =~= found@ + self.slot_boundaries(0));
        while j < self.n_slots
            invariant
                self.wf(),
                j <= self.n_slots,
                found@ == self.fixed_boundaries() + self.record_boundaries(
                    self.max_consumers as nat,
                ) + self.slot_boundaries(j as nat),
            decreases self.n_slots - j,
        {
            assert(0 <= j * self.slot.size <= self.n_slots * self.slot.size) by (nonlinear_arith)
                requires
                    0 <= j <= self.n_slots,
                    self.slot.size >= 0,
            ;
            found.push(
                Boundary {
                    offset: self.data_begin + j * self.slot.size,
                    section: Section::Slot { index: j },
                },
            );
            j = j + 1;
            assert(found@ =~= self.fixed_boundaries() + self.record_boundaries(
                self.max_consumers as nat,
            ) + self.slot_boundaries(j as nat));
        }
        sort_by_offset(&found)
    }
}

/// A sorted list with `boundary` put behind all that are not beyond it.
pub open spec fn inserted(sorted: Seq<Boundary>, boundary: Boundary) -> Seq<Boundary>
    decreases sorted.len(),
{
    if sorted.len() == 0 || sorted.last().offset <= boundary.offset {
        sorted.push(boundary)
    } else {
        inserted(sorted.drop_last(), boundary).push(sorted.last())
    }
}

/// The boundaries by offset, those at the same offset in their old order.
pub open spec fn sorted_by_offset(boundaries: Seq<Boundary>) -> Seq<Boundary>
    decreases boundaries.len(),
{
    if boundaries.len() == 0 {
        boundaries
    } else {
        inserted(sorted_by_offset(boundaries.drop_last()), boundaries.last())
    }
}

proof fn lemma_insert_position(sorted: Seq<Boundary>, boundary: Boundary, at: int)
    requires
        0 <= at <= sorted.len(),
        at > 0 ==> sorted[at - 1].offset <= boundary.offset,
        forall|i: int| at <= i < sorted.len() ==> (#[trigger] sorted[i]).offset > boundary.offset,
    ensures
        inserted(sorted, boundary) == sorted.insert(at, boundary),
    decreases sorted.len(),
{
    if at == sorted.len() {
        assert(sorted.insert(at, boundary) =~= sorted.push(boundary));
    } else {
        assert(sorted.last().offset > boundary.offset);
        lemma_insert_position(sorted.drop_last(), boundary, at);
        assert(sorted.drop_last().insert(at, boundary).push(sorted.last()) =~= sorted.insert(
            at,
            boundary,
        ));
    }
}

/// Sorts boundaries by offset, stably.
fn sort_by_offset(boundaries: &Vec<Boundary>) -> (r: Vec<Boundary>)
    ensures
        r@ == sorted_by_offset(boundaries@),
{
    let mut sorted: Vec<Boundary> = Vec::new();
    let mut i: usize = 0;
    assert(boundaries@.take(0) =~= Seq::empty());
    while i < boundaries.len()
        invariant
            i <= boundaries@.len(),
            sorted@ == sorted_by_offset(boundaries@.take(i as int)),
        decreases boundaries@.len() - i,
    {
        let boundary = boundaries[i];
        let mut at: usize = sorted.len();
        while at > 0 && sorted[at - 1].offset > boundary.offset
            invariant
                at <= sorted@.len(),
                forall|k: int|
                    at <= k < sorted@.len() ==> (#[trigger] sorted@[k]).offset > boundary.offset,
            decreases at,
        {
            at = at - 1;
        }
        proof {
            lemma_insert_position(sorted@, boundary, at as int);
            assert(boundaries@.take(i + 1).drop_last() =~= boundaries@.take(i as int));
        }
        sorted.insert(at, boundary);
        i = i + 1;
    }
    assert(boundaries@.take(i as int) =~= boundaries@);
    sorted
}

/// The section map is in order: no boundary comes before one with a smaller
/// offset, none is lost or made up, and those at the same offset keep the order
/// in which they were found.
pub proof fn law_section_map_is_in_order(boundaries: Seq<Boundary>, offset: usize)
    ensures
        ({
            let map = sorted_by_offset(boundaries);
            &&& forall|i: int, j: int| 0 <= i <= j < map.len() ==> map[i].offset <= map[j].offset
            &&& map.to_multiset() == boundaries.to_multiset()
            &&& map.filter(|b: Boundary| b.offset == offset) == boundaries.filter(
                |b: Boundary| b.offset == offset,
            )
        }),
    decreases boundaries.len(),
{
    if boundaries.len() > 0 {
        let rest = boundaries.drop_last();
        law_section_map_is_in_order(rest, offset);
        lemma_inserted(sorted_by_offset(rest), boundaries.last(), offset);
        broadcast use vstd::seq_lib::group_to_multiset_ensures;

        assert(boundaries =~= rest.push(boundaries.last()));
        reveal(Seq::filter);
    }
}

proof fn lemma_inserted(sorted: Seq<Boundary>, boundary: Boundary, offset: usize)
    requires
        forall|i: int, j: int| 0 <= i <= j < sorted.len() ==> sorted[i].offset <= sorted[j].offset,
    ensures
        ({
            let at = |b: Boundary| b.offset == offset;
            let map = inserted(sorted, boundary);
            &&& map.len() == sorted.len() + 1
            &&& forall|i: int, j: int| 0 <= i <= j < map.len() ==> map[i].offset <= map[j].offset
            &&& forall|i: int|
                0 <= i < map.len() ==> (#[trigger] map[i]) == boundary || sorted.contains(map[i])
            &&& map.to_multiset() == sorted.to_multiset().insert(boundary)
            &&& map.filter(at) == if boundary.offset == offset {
                sorted.filter(at).push(boundary)
            } else {
                sorted.filter(at)
            }
        }),
    decreases sorted.len(),
{
    broadcast use vstd::seq_lib::group_to_multiset_ensures;

    reveal(Seq::filter);
    let at = |b: Boundary| b.offset == offset;
    let map = inserted(sorted, boundary);
    if sorted.len() == 0 || sorted.last().offset <= boundary.offset {
        assert(map.drop_last() =~= sorted);
        assert forall|i: int| 0 <= i < map.len() implies (#[trigger] map[i]) == boundary
            || sorted.contains(map[i]) by {
            if i < sorted.len() {
                assert(sorted[i] == map[i]);
            }
        }
    } else {
        let rest = sorted.drop_last();
        lemma_inserted(rest, boundary, offset);
        assert(map.drop_last() =~= inserted(rest, boundary));
        assert(sorted =~= rest.push(sorted.last()));
        let inner = inserted(rest, boundary);
        assert forall|i: int| 0 <= i < map.len() implies (#[trigger] map[i]) == boundary
            || sorted.contains(map[i]) by {
            if i < inner.len() {
                assert(map[i] == inner[i]);
                if inner[i] != boundary {
                    let k = choose|k: int| 0 <= k < rest.len() && rest[k] == inner[i];
                    assert(sorted[k] == map[i]);
                }
            } else {
                assert(sorted[sorted.len() - 1] == map[i]);
            }
        }
        assert forall|i: int, j: int| 0 <= i <= j < map.len() implies map[i].offset
            <= map[j].offset by {
            if j == inner.len() && i < inner.len() {
                if inner[i] != boundary {
                    let k = choose|k: int| 0 <= k < rest.len() && rest[k] == inner[i];
                    assert(sorted[k].offset <= sorted[sorted.len() - 1].offset);
                }
            }
        }
        if sorted.last().offset == offset {
            if boundary.offset == offset {
                assert(false);
            }
        }
        assert(map.to_multiset() =~= sorted.to_multiset().insert(boundary));
    }
}

/// `n` as an offset: eight hexadecimal digits, or more where they do not do.
pub open spec fn offset_text(n: nat) -> Seq<char> {
    "0x"@ + padded_hex(n, 8)
}

/// The measures, line by line.
pub open spec fn measure_lines(base: nat, queue: ShmQueue, m: Measures) -> Seq<Seq<char>> {
    let heartbeats = header_size_spec() as nat;
    let queue_end = queue_size_spec(m.mode) as nat;
    let padding = if m.data_begin > m.records_end {
        (m.data_begin - m.records_end) as nat
    } else {
        0
    };
    let head = seq![
        "========== SHARED MEMORY DUMP =========="@,
        "base_ptr            = 0x"@ + digits(base, 16),
        "total_size          = "@ + decimal(m.total as nat) + " bytes"@,
        "header_size         = "@ + decimal(heartbeats) + " bytes"@,
        "shm_queue_size      = "@ + decimal(queue_end) + " bytes"@,
    ];
    let producer = if m.mode == HeartbeatMode::Disabled {
        seq![]
    } else {
        seq![
            "heartbeats_offset   = "@ + offset_text(heartbeats),
            "heartbeats_size     = "@ + decimal((queue_end - heartbeats) as nat) + " bytes"@,
        ]
    };
    let consumers = if m.mode == HeartbeatMode::Full {
        seq![
            "consumer_meta_offset= "@ + offset_text(consumers_meta_offset_spec() as nat),
            "consumer_buf_offset = "@ + offset_text(m.buffer_offset as nat)
                + " (relative to consumer meta)"@,
            "consumer_buf_begin  = "@ + offset_text(m.records_begin as nat),
            "consumer_buf_size   = "@ + decimal(m.records_size as nat) + " bytes"@,
        ]
    } else {
        seq![]
    };
    let tail = seq![
        "max_consumers       = "@ + decimal(m.max_consumers as nat),
        "data_padding_size   = "@ + decimal(padding) + " bytes"@,
        "queue_offset        = "@ + offset_text(m.data_begin as nat)
            + " (data buffer offset from base)"@,
        "data_area_begin     = "@ + offset_text(m.data_begin as nat),
        "slot_size           = "@ + decimal(m.slot.size as nat) + " bytes"@,
        "slot_align          = "@ + decimal(m.slot.align as nat) + " bytes"@,
        "num_slots           = "@ + decimal(m.n_slots as nat),
        "last_committed_slot = "@ + decimal(queue.header.last_committed_slot as nat),
        "state               = "@ + decimal(queue.header.state as nat) + " ("@
            + crate::layout::decoded_state(queue.header.state).text() + ")"@,
        "----------------------------------------"@,
        "Section map:"@,
    ];
    head + producer + consumers + tail
}

/// The lines of the first `count` boundaries of the map.
pub open spec fn map_lines(map: Seq<Boundary>, count: nat) -> Seq<Seq<char>> {
    Seq::new(
        count,
        |i: int|
            "  "@ + offset_text(map[i].offset as nat) + "  "@ + map[i].section.text(),
    )
}

/// The headings of the boundaries from `from` to before `to`.
pub open spec fn heading_lines(map: Seq<Boundary>, from: int, to: int) -> Seq<Seq<char>> {
    Seq::new(
        (to - from) as nat,
        |i: int|
            "---- "@ + offset_text(map[from + i].offset as nat) + " "@ + map[from
                + i].section.text() + " ----"@,
    )
}

/// The marks of the boundaries from `from` to before `to`, behind a line.
pub open spec fn marks(map: Seq<Boundary>, from: int, to: int) -> Seq<char>
    decreases to - from,
{
    if to <= from {
        Seq::empty()
    } else {
        marks(map, from, to - 1) + ("  <-- "@ + offset_text(map[to - 1].offset as nat) + " "@
            + map[to - 1].section.text())
    }
}

/// The first boundary from `from` on that lies at `limit` or beyond, or the end.
pub open spec fn first_at_or_beyond(map: Seq<Boundary>, from: int, limit: int) -> int
    decreases map.len() - from,
{
    if from >= map.len() || map[from].offset >= limit {
        from
    } else {
        first_at_or_beyond(map, from + 1, limit)
    }
}

/// The first `count` of the sixteen cells of a line in hexadecimal. A cell behind
/// the last byte is blank.
pub open spec fn hex_cells(line: Seq<u8>, count: nat) -> Seq<char>
    decreases count,
{
    if count == 0 {
        Seq::empty()
    } else {
        hex_cells(line, (count - 1) as nat) + if count <= line.len() {
            padded_hex(line[count - 1] as nat, 2) + " "@
        } else {
            "   "@
        }
    }
}

/// How a byte is shown as a character: itself where it is printable ASCII, and a
/// dot otherwise.
pub open spec fn shown(byte: u8) -> char {
    if 32 <= byte <= 126 {
        byte as char
    } else {
        '.'
    }
}

/// Where the line that starts at `start` ends.
pub open spec fn line_end(start: int, len: int) -> int {
    if start + 16 < len {
        start + 16
    } else {
        len
    }
}

/// The line for the bytes from `start` on: the address, the bytes in hexadecimal
/// and as characters, and the boundaries inside the line from number `next` on.
pub open spec fn byte_line(
    base: int,
    bytes: Seq<u8>,
    start: int,
    map: Seq<Boundary>,
    next: int,
) -> Seq<char> {
    let end = line_end(start, bytes.len() as int);
    let line = bytes.subrange(start, end);
    padded_hex((base + start) as nat, 8) + ": "@ + hex_cells(line, 16) + "|"@ + line.map_values(
        |b: u8| shown(b),
    ) + "|"@ + marks(map, next, first_at_or_beyond(map, next, end))
}

/// The lines for the bytes from `start` on. A line is preceded by the headings of
/// the boundaries up to its first byte that have had none, from number `next` on.
pub open spec fn byte_lines(
    base: int,
    bytes: Seq<u8>,
    start: int,
    map: Seq<Boundary>,
    next: int,
) -> Seq<Seq<char>>
    decreases bytes.len() - start,
{
    if start >= bytes.len() {
        Seq::empty()
    } else {
        let reached = first_at_or_beyond(map, next, start + 1);
        heading_lines(map, next, reached) + seq![byte_line(base, bytes, start, map, reached)]
            + byte_lines(base, bytes, line_end(start, bytes.len() as int), map, reached)
    }
}

/// The whole picture of an object at `base` with the given fixed head and bytes.
pub open spec fn dump_lines(base: int, queue: ShmQueue, bytes: Seq<u8>, m: Measures) -> Seq<
    Seq<char>,
> {
    let map = sorted_by_offset(m.all_boundaries());
    measure_lines(base as nat, queue, m) + map_lines(map, map.len()) + seq![
        "----------------------------------------"@,
    ] + byte_lines(base, bytes, 0, map, 0) + seq![
        "========== END SHARED MEMORY DUMP =========="@,
    ]
}

fn push_line(lines: &mut Vec<String>, line: String)
    ensures
        texts(final(lines)@) == texts(old(lines)@).push(line@),
{
    lines.push(line);
    assert(texts(lines@) =~= texts(old(lines)@).push(line@));
}

fn push_text_line(lines: &mut Vec<String>, line: &str)
    ensures
        texts(final(lines)@) == texts(old(lines)@).push(line@),
{
    push_line(lines, line.to_owned());
}

fn push_plain_number_line(lines: &mut Vec<String>, before: &str, number: usize)
    ensures
        texts(final(lines)@) == texts(old(lines)@).push(before@ + decimal(number as nat)),
{
    let mut line = before.to_owned();
    push_decimal(&mut line, number);
    push_line(lines, line);
}

fn push_plain_offset_line(lines: &mut Vec<String>, before: &str, offset: usize)
    ensures
        texts(final(lines)@) == texts(old(lines)@).push(before@ + offset_text(offset as nat)),
{
    let mut line = before.to_owned();
    push_offset(&mut line, offset);
    push_line(lines, line);
}

fn push_number_line(lines: &mut Vec<String>, before: &str, number: usize, after: &str)
    ensures
        texts(final(lines)@) == texts(old(lines)@).push(
            before@ + decimal(number as nat) + after@,
        ),
{
    let mut line = String::new();
    push_number(&mut line, before, number, after);
    assert(line@ =~= before@ + decimal(number as nat) + after@);
    push_line(lines, line);
}

fn push_offset(out: &mut String, offset: usize)
    ensures
        final(out)@ == old(out)@ + offset_text(offset as nat),
{
    out.append("0x");
    push_padded_hex(out, offset as u64, 8);
    assert(out@ =~= old(out)@ + offset_text(offset as nat));
}

fn push_offset_line(lines: &mut Vec<String>, before: &str, offset: usize, after: &str)
    ensures
        texts(final(lines)@) == texts(old(lines)@).push(
            before@ + offset_text(offset as nat) + after@,
        ),
{
    let mut line = before.to_owned();
    push_offset(&mut line, offset);
    line.append(after);
    push_line(lines, line);
}

fn push_measures(lines: &mut Vec<String>, base: usize, queue: &ShmQueue, m: &Measures)
    ensures
        texts(final(lines)@) == texts(old(lines)@) + measure_lines(base as nat, *queue, *m),
{
    let ghost before = texts(lines@);
    let heartbeats = header_size();
    let queue_end = queue_size(m.mode);
    proof {
        crate::numeric::lemma_round_up(16 + 3 * crate::layout::word_size(), 8);
    }
    push_text_line(lines, "========== SHARED MEMORY DUMP ==========");
    let mut line = "base_ptr            = 0x".to_owned();
    push_digits(&mut line, base as u64, 16);
    push_line(lines, line);
    push_number_line(lines, "total_size          = ", m.total, " bytes");
    push_number_line(lines, "header_size         = ", heartbeats, " bytes");
    push_number_line(lines, "shm_queue_size      = ", queue_end, " bytes");
    if m.mode != HeartbeatMode::Disabled {
        push_plain_offset_line(lines, "heartbeats_offset   = ", heartbeats);
        push_number_line(lines, "heartbeats_size     = ", queue_end - heartbeats, " bytes");
    }
    if m.mode == HeartbeatMode::Full {
        push_plain_offset_line(lines, "consumer_meta_offset= ", consumers_meta_offset());
        push_offset_line(
            lines,
            "consumer_buf_offset = ",
            m.buffer_offset,
            " (relative to consumer meta)",
        );
        push_plain_offset_line(lines, "consumer_buf_begin  = ", m.records_begin);
        push_number_line(lines, "consumer_buf_size   = ", m.records_size, " bytes");
    }
    push_plain_number_line(lines, "max_consumers       = ", m.max_consumers);
    push_number_line(
        lines,
        "data_padding_size   = ",
        m.data_begin.saturating_sub(m.records_end),
        " bytes",
    );
    push_offset_line(
        lines,
        "queue_offset        = ",
        m.data_begin,
        " (data buffer offset from base)",
    );
    push_plain_offset_line(lines, "data_area_begin     = ", m.data_begin);
    push_number_line(lines, "slot_size           = ", m.slot.size, " bytes");
    push_number_line(lines, "slot_align          = ", m.slot.align, " bytes");
    push_plain_number_line(lines, "num_slots           = ", m.n_slots);
    push_plain_number_line(
        lines,
        "last_committed_slot = ",
        queue.header.last_committed_slot,
    );
    let mut state = "state               = ".to_owned();
    push_decimal(&mut state, queue.header.state as usize);
    state.append(" (");
    state.append(ShmState::from(queue.header.state).name());
    state.append(")");
    push_line(lines, state);
    push_text_line(lines, "----------------------------------------");
    push_text_line(lines, "Section map:");
    assert(texts(lines@) =~= before + measure_lines(base as nat, *queue, *m));
}

fn push_map(lines: &mut Vec<String>, map: &Vec<Boundary>)
    ensures
        texts(final(lines)@) == texts(old(lines)@) + map_lines(map@, map@.len()),
{
    let ghost before = texts(lines@);
    let mut i: usize = 0;
    assert(before =~= before + map_lines(map@, 0));
    while i < map.len()
        invariant
            i <= map@.len(),
            texts(lines@) == before + map_lines(map@, i as nat),
        decreases map@.len() - i,
    {
        let mut line = "  ".to_owned();
        push_offset(&mut line, map[i].offset);
        line.append("  ");
        map[i].section.push_text(&mut line);
        push_line(lines, line);
        i = i + 1;
        assert(texts(lines@) =~= before + map_lines(map@, i as nat));
    }
}

fn push_headings(lines: &mut Vec<String>, map: &Vec<Boundary>, from: usize, start: usize) -> (r:
    usize)
    requires
        from <= map@.len(),
    ensures
        r == first_at_or_beyond(map@, from as int, start + 1),
        from <= r <= map@.len(),
        texts(final(lines)@) == texts(old(lines)@) + heading_lines(map@, from as int, r as int),
{
    let ghost before = texts(lines@);
    let mut next: usize = from;
    assert(before =~= before + heading_lines(map@, from as int, from as int));
    while next < map.len() && map[next].offset <= start
        invariant
            from <= next <= map@.len(),
            first_at_or_beyond(map@, from as int, start + 1) == first_at_or_beyond(
                map@,
                next as int,
                start + 1,
            ),
            texts(lines@) == before + heading_lines(map@, from as int, next as int),
        decreases map@.len() - next,
    {
        let mut line = "---- ".to_owned();
        push_offset(&mut line, map[next].offset);
        line.append(" ");
        map[next].section.push_text(&mut line);
        line.append(" ----");
        push_line(lines, line);
        next = next + 1;
        assert(texts(lines@) =~= before + heading_lines(map@, from as int, next as int));
    }
    next
}

fn push_hex_cells(out: &mut String, line: &[u8])
    ensures
        final(out)@ == old(out)@ + hex_cells(line@, 16),
{
    let ghost before = out@;
    let mut i: usize = 0;
    assert(before =~= before + hex_cells(line@, 0));
    while i < 16
        invariant
            i <= 16,
            out@ == before + hex_cells(line@, i as nat),
        decreases 16 - i,
    {
        if i < line.len() {
            push_padded_hex(out, line[i] as u64, 2);
            out.append(" ");
        } else {
            out.append("   ");
        }
        i = i + 1;
        assert(out@ =~= before + hex_cells(line@, i as nat));
    }
}

fn push_characters(out: &mut String, line: &[u8])
    ensures
        final(out)@ == old(out)@ + line@.map_values(|b: u8| shown(b)),
{
    let ghost before = out@;
    let ghost all = line@.map_values(|b: u8| shown(b));
    let mut i: usize = 0;
    assert(before =~= before + all.take(0));
    while i < line.len()
        invariant
            i <= line@.len(),
            all == line@.map_values(|b: u8| shown(b)),
            out@ == before + all.take(i as int),
        decreases line@.len() - i,
    {
        let byte = line[i];
        if 32 <= byte && byte <= 126 {
            out.push(byte as char);
        } else {
            out.push('.');
        }
        i = i + 1;
        assert(out@ =~= before + all.take(i as int));
    }
    assert(all.take(i as int) =~= all);
}

fn push_marks(out: &mut String, map: &Vec<Boundary>, from: usize, end: usize)
    requires
        from <= map@.len(),
    ensures
        final(out)@ == old(out)@ + marks(
            map@,
            from as int,
            first_at_or_beyond(map@, from as int, end as int),
        ),
{
    let ghost before = out@;
    let mut next: usize = from;
    assert(before =~= before + marks(map@, from as int, from as int));
    while next < map.len() && map[next].offset < end
        invariant
            from <= next <= map@.len(),
            first_at_or_beyond(map@, from as int, end as int) == first_at_or_beyond(
                map@,
                next as int,
                end as int,
            ),
            out@ == before + marks(map@, from as int, next as int),
        decreases map@.len() - next,
    {
        out.append("  <-- ");
        push_offset(out, map[next].offset);
        out.append(" ");
        map[next].section.push_text(out);
        next = next + 1;
        assert(out@ =~= before + marks(map@, from as int, next as int));
    }
}

fn push_byte_lines(lines: &mut Vec<String>, base: usize, bytes: &Vec<u8>, map: &Vec<Boundary>)
    requires
        base + bytes@.len() <= usize::MAX,
    ensures
        texts(final(lines)@) == texts(old(lines)@) + byte_lines(base as int, bytes@, 0, map@, 0),
{
    let ghost before = texts(lines@);
    let ghost whole = byte_lines(base as int, bytes@, 0, map@, 0);
    let mut start: usize = 0;
    let mut next: usize = 0;
    while start < bytes.len()
        invariant
            base + bytes@.len() <= usize::MAX,
            start <= bytes@.len(),
            next <= map@.len(),
            texts(lines@) + byte_lines(base as int, bytes@, start as int, map@, next as int)
                == before + whole,
        decreases bytes@.len() - start,
    {
        let ghost so_far = texts(lines@);
        let ghost from = next as int;
        next = push_headings(lines, map, next, start);
        let end: usize = if bytes.len() - start > 16 {
            start + 16
        } else {
            bytes.len()
        };
        let line = &bytes[start..end];
        let mut out = String::new();
        push_padded_hex(&mut out, (base + start) as u64, 8);
        out.append(": ");
        push_hex_cells(&mut out, line);
        out.append("|");
        push_characters(&mut out, line);
        out.append("|");
        push_marks(&mut out, map, next, end);
        assert(out@ =~= byte_line(base as int, bytes@, start as int, map@, next as int));
        push_line(lines, out);
        proof {
            let rest = byte_lines(base as int, bytes@, end as int, map@, next as int);
            let headings = heading_lines(map@, from, next as int);
            assert(so_far + (headings + seq![out@] + rest) =~= (so_far + headings).push(out@)
                + rest);
        }
        start = end;
    }
    assert(texts(lines@) =~= texts(lines@) + byte_lines(
        base as int,
        bytes@,
        start as int,
        map@,
        next as int,
    ));
}

/// The picture of an object, line by line. `base` is the address at which it is
/// mapped, `queue` its fixed head, `measures` what was measured of that head, and
/// `bytes` all its bytes up to the end of its slots.
pub fn debug_print_shm(base: usize, queue: &ShmQueue, measures: &Measures, bytes: &Vec<u8>) -> (r:
    Vec<String>)
    requires
        measures.wf(),
        base + bytes@.len() <= usize::MAX,
    ensures
        texts(r@) == dump_lines(base as int, *queue, bytes@, *measures),
{
    let map = measures.section_map();
    let mut lines: Vec<String> = Vec::new();
    push_measures(&mut lines, base, queue, measures);
    push_map(&mut lines, &map);
    push_text_line(&mut lines, "----------------------------------------");
    push_byte_lines(&mut lines, base, bytes, &map);
    push_text_line(&mut lines, "========== END SHARED MEMORY DUMP ==========");
    assert(texts(lines@) =~= dump_lines(base as int, *queue, bytes@, *measures));
    lines
}

/// What is measured of an object is what its fixed head says, and it can be measured
/// exactly where every end can be counted in a word.
pub proof fn law_measures_are_those_of_the_head<T>(queue: ShmQueue, mode: HeartbeatMode)
    ensures
        ({
            let header = queue.header;
            let consumers = queue.heartbeats.consumers;
            let records = queue_size_spec(HeartbeatMode::ProducerOnly) + consumers.buffer_offset;
            let total = header.queue_offset + header.n_slots * slot_size::<T>();
            let m = Measures::of::<T>(queue, mode);
            &&& measurable::<T>(queue, mode) <==> total <= usize::MAX && (mode
                == HeartbeatMode::Full ==> records + consumers.max_consumers * 24 <= usize::MAX)
            &&& measurable::<T>(queue, mode) ==> {
                &&& m.mode == mode
                &&& m.total == total
                &&& m.data_begin == header.queue_offset
                &&& m.n_slots == header.n_slots
                &&& m.slot.size == slot_size::<T>() as usize
                &&& m.slot.align == slot_align::<T>() as usize
                &&& mode == HeartbeatMode::Full ==> {
                    &&& m.buffer_offset == consumers.buffer_offset
                    &&& m.max_consumers == consumers.max_consumers
                    &&& m.records_begin == records
                    &&& m.records_size == consumers.max_consumers * 24
                    &&& m.records_end == records + consumers.max_consumers * 24
                }
                &&& mode != HeartbeatMode::Full ==> {
                    &&& m.buffer_offset == 0
                    &&& m.max_consumers == 0
                    &&& m.records_begin == queue_size_spec(mode)
                    &&& m.records_size == 0
                    &&& m.records_end == queue_size_spec(mode)
                }
            }
        }),
{
    crate::layout::law_head_in_bytes();
    lemma_slot_layout::<T>();
    assert(queue.header.n_slots * slot_size::<T>() >= 0) by (nonlinear_arith)
        requires
            slot_size::<T>() >= 0,
    ;
}

/// The map has every part of the object: the header at its start, each record and each
/// slot where the one before ends, the ends of the head and of the records, and nothing
/// else.
pub proof fn law_map_has_every_part(m: Measures, record: int, slot: int)
    requires
        m.wf(),
    ensures
        ({
            let map = m.all_boundaries();
            let full = m.mode == HeartbeatMode::Full;
            let beats = m.mode != HeartbeatMode::Disabled;
            let head_end = queue_size_spec(m.mode) as usize;
            let header_end = header_size_spec() as usize;
            &&& map.contains(
                Boundary { offset: 0, section: Section::Header { size: header_end } },
            )
            &&& beats ==> map.contains(
                Boundary { offset: header_end, section: Section::ProducerHeartbeat },
            )
            &&& beats ==> map.contains(
                Boundary {
                    offset: header_end,
                    section: Section::Heartbeats { size: (head_end - header_end) as usize },
                },
            )
            &&& full ==> map.contains(
                Boundary {
                    offset: consumers_meta_offset_spec() as usize,
                    section: Section::ConsumersMeta,
                },
            )
            &&& map.contains(
                Boundary { offset: head_end, section: Section::QueueEnd { size: head_end } },
            )
            &&& full ==> map.contains(
                Boundary {
                    offset: m.records_begin,
                    section: Section::RecordsBegin { consumers: m.max_consumers },
                },
            )
            &&& full ==> map.contains(
                Boundary {
                    offset: m.records_end,
                    section: Section::RecordsEnd { size: m.records_size },
                },
            )
            &&& map.contains(
                Boundary {
                    offset: m.data_begin,
                    section: Section::Data { slot_size: m.slot.size, slots: m.n_slots },
                },
            )
            &&& 0 <= record < m.max_consumers ==> map.contains(
                Boundary {
                    offset: (m.records_begin + record * 24) as usize,
                    section: Section::Consumer { index: record as usize },
                },
            )
            &&& 0 <= slot < m.n_slots ==> map.contains(
                Boundary {
                    offset: (m.data_begin + slot * m.slot.size) as usize,
                    section: Section::Slot { index: slot as usize },
                },
            )
            &&& map.len() == m.max_consumers + m.n_slots + if full {
                8int
            } else if beats {
                5int
            } else {
                3int
            }
        }),
{
    let fixed = m.fixed_boundaries();
    let records = m.record_boundaries(m.max_consumers as nat);
    let slots = m.slot_boundaries(m.n_slots as nat);
    let map = m.all_boundaries();
    assert(forall|i: int| 0 <= i < fixed.len() ==> #[trigger] map[i] == fixed[i]);
    let n = fixed.len() as int;
    if m.mode == HeartbeatMode::Full {
        assert(n == 8);
        assert(map[0] == fixed[0] && map[1] == fixed[1] && map[2] == fixed[2] && map[3] == fixed[3]
            && map[4] == fixed[4] && map[5] == fixed[5] && map[6] == fixed[6] && map[7]
            == fixed[7]);
    } else if m.mode == HeartbeatMode::ProducerOnly {
        assert(n == 5);
        assert(map[0] == fixed[0] && map[1] == fixed[1] && map[2] == fixed[2] && map[3] == fixed[3]
            && map[4] == fixed[4]);
    } else {
        assert(n == 3);
        assert(map[0] == fixed[0] && map[1] == fixed[1] && map[2] == fixed[2]);
    }
    if 0 <= record < m.max_consumers {
        assert(map[n + record] == records[record]);
    }
    if 0 <= slot < m.n_slots {
        assert(map[n + m.max_consumers + slot] == slots[slot]);
    }
}

/// A line shows its bytes: cell by cell, two hexadecimal digits that stand for the byte and
/// a blank, and blanks for what is behind the last byte.
pub proof fn law_cells_show_the_bytes(line: Seq<u8>, count: nat, i: int)
    requires
        0 <= i < count,
    ensures
        ({
            let cells = hex_cells(line, count);
            let cell = cells.subrange(3 * i, 3 * i + 2);
            &&& cells.len() == 3 * count
            &&& cells[3 * i + 2] == ' '
            &&& i < line.len() ==> {
                &&& crate::text::is_number(cell, 16)
                &&& crate::text::number_of(cell, 16) == line[i]
            }
            &&& i >= line.len() ==> cell == seq![' ', ' ']
        }),
    decreases count,
{
    reveal_strlit(" ");
    reveal_strlit("   ");
    let before = hex_cells(line, (count - 1) as nat);
    let cells = hex_cells(line, count);
    let k = count - 1;
    if k > 0 {
        law_cells_show_the_bytes(line, (count - 1) as nat, if i < k {
                i
            } else {
                0
            });
    }
    if k < line.len() {
        lemma_byte_takes_two_digits(line[k]);
    }
    assert(before.len() == 3 * k);
    if i < k {
        assert(cells.subrange(3 * i, 3 * i + 2) =~= before.subrange(3 * i, 3 * i + 2));
    } else if k < line.len() {
        assert(cells.subrange(3 * i, 3 * i + 2) =~= padded_hex(line[k] as nat, 2));
    } else {
        assert(cells.subrange(3 * i, 3 * i + 2) =~= seq![' ', ' ']);
    }
}

proof fn lemma_byte_takes_two_digits(byte: u8)
    ensures
        padded_hex(byte as nat, 2).len() == 2,
        crate::text::is_number(padded_hex(byte as nat, 2), 16),
        crate::text::number_of(padded_hex(byte as nat, 2), 16) == byte,
{
    crate::text::law_padded_number_reads_back(byte as nat, 2);
    reveal_with_fuel(padded_hex, 2);
    reveal_with_fuel(digits, 2);
    assert((byte as nat) / 16 < 16);
}

/// Behind the cells a line shows the same bytes as characters: those from the blank to the
/// tilde as themselves, and a dot for each other. A line has sixteen bytes, or those that
/// are left.
pub proof fn law_characters_show_the_bytes(byte: u8, start: int, len: int)
    requires
        0 <= start < len,
    ensures
        ' ' <= byte as char && byte as char <= '~' ==> shown(byte) == byte as char,
        !(' ' <= byte as char && byte as char <= '~') ==> shown(byte) == '.',
        start < line_end(start, len) <= len,
        len - start >= 16 ==> line_end(start, len) == start + 16,
        len - start <= 16 ==> line_end(start, len) == len,
{
}

/// What the search along the map finds: the first boundary from there on that is not
/// before the limit.
pub proof fn lemma_first_at_or_beyond(map: Seq<Boundary>, from: int, limit: int)
    requires
        0 <= from <= map.len(),
    ensures
        ({
            let found = first_at_or_beyond(map, from, limit);
            &&& from <= found <= map.len()
            &&& forall|i: int| from <= i < found ==> (#[trigger] map[i]).offset < limit
            &&& found < map.len() ==> map[found].offset >= limit
        }),
    decreases map.len() - from,
{
    if from < map.len() && map[from].offset < limit {
        lemma_first_at_or_beyond(map, from + 1, limit);
    }
}

/// Every byte is shown, sixteen to a line, under its address: between the lines stand the
/// headings of the boundaries that are reached, each once, and nothing else.
pub proof fn law_dump_shows_every_byte(
    base: int,
    bytes: Seq<u8>,
    start: int,
    map: Seq<Boundary>,
    next: int,
    line: int,
)
    requires
        0 <= start,
        0 <= next <= map.len(),
        0 <= line,
        start + 16 * line < bytes.len(),
    ensures
        ({
            let lines = byte_lines(base, bytes, start, map, next);
            let first = start + 16 * line;
            exists|k: int, reached: int|
                {
                    &&& 0 <= k < lines.len()
                    &&& next <= reached <= map.len()
                    &&& k == line + (reached - next)
                    &&& reached < map.len() ==> map[reached].offset > first
                    &&& forall|i: int| next <= i < reached ==> (#[trigger] map[i]).offset <= first
                    &&& #[trigger] lines[k] == #[trigger] byte_line(
                        base,
                        bytes,
                        first,
                        map,
                        reached,
                    )
                }
        }),
    decreases bytes.len() - start,
{
    let lines = byte_lines(base, bytes, start, map, next);
    let here = first_at_or_beyond(map, next, start + 1);
    lemma_first_at_or_beyond(map, next, start + 1);
    let headings = heading_lines(map, next, here);
    let end = line_end(start, bytes.len() as int);
    let rest = byte_lines(base, bytes, end, map, here);
    assert(lines == headings + seq![byte_line(base, bytes, start, map, here)] + rest);
    if line == 0 {
        assert(lines[here - next] == byte_line(base, bytes, start + 16 * line, map, here));
    } else {
        law_dump_shows_every_byte(base, bytes, end, map, here, line - 1);
        let first = start + 16 * line;
        let (k, reached) = choose|k: int, reached: int|
            {
                &&& 0 <= k < rest.len()
                &&& here <= reached <= map.len()
                &&& k == line - 1 + (reached - here)
                &&& reached < map.len() ==> map[reached].offset > first
                &&& forall|i: int| here <= i < reached ==> (#[trigger] map[i]).offset <= first
                &&& #[trigger] rest[k] == #[trigger] byte_line(base, bytes, first, map, reached)
            };
        assert(lines[here - next + 1 + k] == rest[k]);
        assert(lines[here - next + 1 + k] == byte_line(base, bytes, first, map, reached));
    }
}

/// Every boundary that lies no further than the first byte of some line has its heading.
pub proof fn law_dump_heads_every_boundary(
    base: int,
    bytes: Seq<u8>,
    start: int,
    map: Seq<Boundary>,
    next: int,
    i: int,
    line: int,
)
    requires
        0 <= start,
        0 <= line,
        start + 16 * line < bytes.len(),
        0 <= next <= i < map.len(),
        forall|a: int, b: int| 0 <= a <= b < map.len() ==> map[a].offset <= map[b].offset,
        map[i].offset <= start + 16 * line,
    ensures
        byte_lines(base, bytes, start, map, next).contains(
            "---- "@ + offset_text(map[i].offset as nat) + " "@ + map[i].section.text() + " ----"@,
        ),
    decreases bytes.len() - start,
{
    let lines = byte_lines(base, bytes, start, map, next);
    let here = first_at_or_beyond(map, next, start + 1);
    lemma_first_at_or_beyond(map, next, start + 1);
    let headings = heading_lines(map, next, here);
    let end = line_end(start, bytes.len() as int);
    let rest = byte_lines(base, bytes, end, map, here);
    let heading = "---- "@ + offset_text(map[i].offset as nat) + " "@ + map[i].section.text()
        + " ----"@;
    assert(lines == headings + seq![byte_line(base, bytes, start, map, here)] + rest);
    if i < here {
        assert(headings[i - next] == heading);
        assert(lines[i - next] == heading);
    } else {
        assert(map[i].offset > start);
        law_dump_heads_every_boundary(base, bytes, end, map, here, i, line - 1);
        let k = choose|k: int| 0 <= k < rest.len() && rest[k] == heading;
        assert(lines[here - next + 1 + k] == heading);
    }
}

/// The marks behind a line are those of the boundaries inside it, one after the other.
pub proof fn law_marks_follow_one_another(map: Seq<Boundary>, from: int, between: int, to: int)
    requires
        from <= between <= to,
    ensures
        marks(map, from, to) == marks(map, from, between) + marks(map, between, to),
        marks(map, from, from).len() == 0,
        marks(map, from, from + 1) == "  <-- "@ + offset_text(map[from].offset as nat) + " "@
            + map[from].section.text(),
    decreases to - between,
{
    reveal_with_fuel(marks, 2);
    assert(marks(map, from, from + 1) =~= "  <-- "@ + offset_text(map[from].offset as nat) + " "@
        + map[from].section.text());
    if between == to {
        assert(marks(map, from, to) =~= marks(map, from, between) + marks(map, between, to));
    } else {
        law_marks_follow_one_another(map, from, between, to - 1);
        assert(marks(map, from, to) =~= marks(map, from, between) + marks(map, between, to));
    }
}

/// The measures are told: of each number that the head gives, the line that says it.
pub proof fn law_dump_tells_the_measures<T>(base: nat, queue: ShmQueue, mode: HeartbeatMode)
    requires
        measurable::<T>(queue, mode),
    ensures
        ({
            let header = queue.header;
            let m = Measures::of::<T>(queue, mode);
            let lines = measure_lines(base, queue, m);
            let total = header.queue_offset + header.n_slots * slot_size::<T>();
            &&& lines.contains("base_ptr            = 0x"@ + digits(base, 16))
            &&& lines.contains("total_size          = "@ + decimal(total as nat) + " bytes"@)
            &&& lines.contains(
                "shm_queue_size      = "@ + decimal(queue_size_spec(mode) as nat) + " bytes"@,
            )
            &&& lines.contains(
                "queue_offset        = "@ + ("0x"@ + padded_hex(header.queue_offset as nat, 8))
                    + " (data buffer offset from base)"@,
            )
            &&& lines.contains(
                "slot_size           = "@ + decimal(m.slot.size as nat) + " bytes"@,
            )
            &&& lines.contains(
                "slot_align          = "@ + decimal(m.slot.align as nat) + " bytes"@,
            )
            &&& lines.contains("num_slots           = "@ + decimal(header.n_slots as nat))
            &&& lines.contains(
                "last_committed_slot = "@ + decimal(header.last_committed_slot as nat),
            )
            &&& lines.contains(
                "state               = "@ + decimal(header.state as nat) + " ("@
                    + crate::guarantees::state_of(header.state).text() + ")"@,
            )
            &&& lines.contains(
                "header_size         = "@ + decimal(
                    queue_size_spec(HeartbeatMode::Disabled) as nat,
                ) + " bytes"@,
            )
            &&& lines.contains(
                "data_area_begin     = "@ + ("0x"@ + padded_hex(header.queue_offset as nat, 8)),
            )
            &&& lines.contains(
                "data_padding_size   = "@ + decimal(
                    if header.queue_offset > m.records_end {
                        (header.queue_offset - m.records_end) as nat
                    } else {
                        0
                    },
                ) + " bytes"@,
            )
            &&& mode != HeartbeatMode::Disabled ==> {
                let beats = queue_size_spec(HeartbeatMode::Disabled);
                &&& lines.contains(
                    "heartbeats_offset   = "@ + ("0x"@ + padded_hex(beats as nat, 8)),
                )
                &&& lines.contains(
                    "heartbeats_size     = "@ + decimal((queue_size_spec(mode) - beats) as nat)
                        + " bytes"@,
                )
            }
            &&& mode == HeartbeatMode::Full ==> {
                let consumers = queue.heartbeats.consumers;
                let meta = queue_size_spec(HeartbeatMode::ProducerOnly);
                let size = consumers.max_consumers * 24;
                &&& lines.contains(
                    "consumer_meta_offset= "@ + ("0x"@ + padded_hex(meta as nat, 8)),
                )
                &&& lines.contains(
                    "consumer_buf_offset = "@ + ("0x"@ + padded_hex(
                        consumers.buffer_offset as nat,
                        8,
                    )) + " (relative to consumer meta)"@,
                )
                &&& lines.contains(
                    "consumer_buf_begin  = "@ + ("0x"@ + padded_hex(
                        (meta + consumers.buffer_offset) as nat,
                        8,
                    )),
                )
                &&& lines.contains(
                    "consumer_buf_size   = "@ + decimal(size as nat) + " bytes"@,
                )
            }
            &&& mode == HeartbeatMode::Full ==> lines.contains(
                "max_consumers       = "@ + decimal(
                    queue.heartbeats.consumers.max_consumers as nat,
                ),
            )
            &&& mode != HeartbeatMode::Full ==> lines.contains(
                "max_consumers       = "@ + decimal(0),
            )
        }),
{
    law_measures_are_those_of_the_head::<T>(queue, mode);
    crate::layout::law_head_in_bytes();
    let m = Measures::of::<T>(queue, mode);
    let lines = measure_lines(base, queue, m);
    let at: int = match mode {
        HeartbeatMode::Full => 11,
        HeartbeatMode::ProducerOnly => 7,
        HeartbeatMode::Disabled => 5,
    };
    assert(lines.len() == at + 11);
    assert(lines[1] == "base_ptr            = 0x"@ + digits(base, 16));
    assert(lines[2] == "total_size          = "@ + decimal(m.total as nat) + " bytes"@);
    assert(lines[4] == "shm_queue_size      = "@ + decimal(queue_size_spec(mode) as nat)
        + " bytes"@);
    assert(lines[at] == "max_consumers       = "@ + decimal(m.max_consumers as nat));
    assert(lines[3] == "header_size         = "@ + decimal(header_size_spec() as nat)
        + " bytes"@);
    assert(lines[at + 1] == "data_padding_size   = "@ + decimal(
        if m.data_begin > m.records_end {
            (m.data_begin - m.records_end) as nat
        } else {
            0
        },
    ) + " bytes"@);
    assert(lines[at + 3] == "data_area_begin     = "@ + offset_text(m.data_begin as nat));
    if mode != HeartbeatMode::Disabled {
        assert(lines[5] == "heartbeats_offset   = "@ + offset_text(header_size_spec() as nat));
        assert(lines[6] == "heartbeats_size     = "@ + decimal(
            (queue_size_spec(mode) - header_size_spec()) as nat,
        ) + " bytes"@);
    }
    if mode == HeartbeatMode::Full {
        assert(lines[7] == "consumer_meta_offset= "@ + offset_text(
            consumers_meta_offset_spec() as nat,
        ));
        assert(lines[8] == "consumer_buf_offset = "@ + offset_text(m.buffer_offset as nat)
            + " (relative to consumer meta)"@);
        assert(lines[9] == "consumer_buf_begin  = "@ + offset_text(m.records_begin as nat));
        assert(lines[10] == "consumer_buf_size   = "@ + decimal(m.records_size as nat)
            + " bytes"@);
    }
    assert(lines[at + 2] == "queue_offset        = "@ + offset_text(m.data_begin as nat)
        + " (data buffer offset from base)"@);
    assert(lines[at + 4] == "slot_size           = "@ + decimal(m.slot.size as nat) + " bytes"@);
    assert(lines[at + 5] == "slot_align          = "@ + decimal(m.slot.align as nat) + " bytes"@);
    assert(lines[at + 6] == "num_slots           = "@ + decimal(m.n_slots as nat));
    assert(lines[at + 7] == "last_committed_slot = "@ + decimal(
        queue.header.last_committed_slot as nat,
    ));
    assert(lines[at + 8] == "state               = "@ + decimal(queue.header.state as nat) + " ("@
        + crate::layout::decoded_state(queue.header.state).text() + ")"@);
}

/// The picture has all its parts, in order: the measures, a line for each boundary of the
/// map with its offset and what it is, and the lines for the bytes.
pub proof fn law_dump_has_all_parts(base: int, queue: ShmQueue, bytes: Seq<u8>, m: Measures)
    ensures
        ({
            let lines = dump_lines(base, queue, bytes, m);
            let map = sorted_by_offset(m.all_boundaries());
            let measures = measure_lines(base as nat, queue, m);
            let shown_bytes = byte_lines(base, bytes, 0, map, 0);
            let first = measures.len();
            let second = first + map.len() + 1;
            &&& lines.len() == second + shown_bytes.len() + 1
            &&& forall|i: int| 0 <= i < first ==> #[trigger] lines[i] == measures[i]
            &&& forall|i: int|
                0 <= i < map.len() ==> lines[first + i] == "  "@ + ("0x"@ + padded_hex(
                    (#[trigger] map[i]).offset as nat,
                    8,
                )) + "  "@ + map[i].section.text()
            &&& forall|i: int|
                0 <= i < shown_bytes.len() ==> lines[second + i] == #[trigger] shown_bytes[i]
            &&& lines.last() == "========== END SHARED MEMORY DUMP =========="@
        }),
{
}

/// A line for bytes reads back: its address first, then each byte in hexadecimal in a cell of
/// its own, then each as a character between two bars.
pub proof fn law_line_reads_back(
    base: int,
    bytes: Seq<u8>,
    start: int,
    map: Seq<Boundary>,
    next: int,
    i: int,
)
    requires
        0 <= base,
        0 <= start,
        0 <= i < 16,
        start + i < bytes.len(),
    ensures
        ({
            let line = byte_line(base, bytes, start, map, next);
            let width = padded_hex((base + start) as nat, 8).len() as int;
            let cell = width + 2 + 3 * i;
            let count = if bytes.len() - start < 16 {
                bytes.len() - start
            } else {
                16
            };
            &&& width >= 8
            &&& crate::text::number_of(line.take(width), 16) == base + start
            &&& crate::text::number_of(line.subrange(cell, cell + 2), 16) == bytes[start + i]
            &&& line[width + 50] == '|'
            &&& line[width + 51 + i] == shown(bytes[start + i])
            &&& line[width + 51 + count] == '|'
        }),
{
    let address = padded_hex((base + start) as nat, 8);
    let end = line_end(start, bytes.len() as int);
    let shown_bytes = bytes.subrange(start, end);
    let cells = hex_cells(shown_bytes, 16);
    let line = byte_line(base, bytes, start, map, next);
    let width = address.len() as int;
    reveal_strlit(": ");
    reveal_strlit("|");
    crate::text::law_padded_number_reads_back((base + start) as nat, 8);
    law_cells_show_the_bytes(shown_bytes, 16, i);
    assert(line.take(width) =~= address);
    assert(line.subrange(width + 2 + 3 * i, width + 2 + 3 * i + 2) =~= cells.subrange(
        3 * i,
        3 * i + 2,
    ));
}

/// What the map says of a record or a slot names its number, and of a part with a size that
/// size, in decimal digits that read back.
pub proof fn law_section_text_reads_back(section: Section)
    ensures
        section matches Section::Slot { index } ==> exists|number: Seq<char>|
            section.text() == "SLOT "@ + number + " BEGIN"@ && crate::text::is_number(number, 10)
                && #[trigger] crate::text::number_of(number, 10) == index,
        section matches Section::Consumer { index } ==> exists|number: Seq<char>|
            section.text() == "CONSUMER HEARTBEAT "@ + number + " BEGIN"@
                && crate::text::is_number(number, 10) && #[trigger] crate::text::number_of(
                number,
                10,
            ) == index,
        section matches Section::Header { size } ==> exists|number: Seq<char>|
            section.text() == "HEADER BEGIN (size = "@ + number + " bytes)"@
                && #[trigger] crate::text::number_of(number, 10) == size,
        section matches Section::QueueEnd { size } ==> exists|number: Seq<char>|
            section.text() == "SHMQUEUE END (size = "@ + number + " bytes)"@
                && #[trigger] crate::text::number_of(number, 10) == size,
        section matches Section::Heartbeats { size } ==> exists|number: Seq<char>|
            section.text() == "HEARTBEATS BEGIN (size = "@ + number + " bytes)"@
                && #[trigger] crate::text::number_of(number, 10) == size,
        section matches Section::RecordsBegin { consumers } ==> exists|number: Seq<char>|
            section.text() == "CONSUMER HEARTBEAT BUFFER BEGIN (item size = "@ + decimal(24)
                + " bytes, consumers = "@ + number + ")"@ && #[trigger] crate::text::number_of(
                number,
                10,
            ) == consumers,
        section matches Section::Data { slot_size, slots } ==> exists|size: Seq<char>, count: Seq<
            char,
        >|
            section.text() == "DATA BUFFER BEGIN (aligned slot area, slot size = "@ + size
                + " bytes, slots = "@ + count + ")"@ && #[trigger] crate::text::number_of(size, 10)
                == slot_size && #[trigger] crate::text::number_of(count, 10) == slots,
        section matches Section::RecordsEnd { size } ==> exists|number: Seq<char>|
            section.text() == "CONSUMER HEARTBEAT BUFFER END (size = "@ + number + " bytes)"@
                && #[trigger] crate::text::number_of(number, 10) == size,
{
    match section {
        Section::Slot { index } => {
            crate::text::law_number_reads_back(index as nat, 10);
        },
        Section::Consumer { index } => {
            crate::text::law_number_reads_back(index as nat, 10);
        },
        Section::Header { size } => {
            crate::text::law_number_reads_back(size as nat, 10);
        },
        Section::QueueEnd { size } => {
            crate::text::law_number_reads_back(size as nat, 10);
        },
        Section::RecordsEnd { size } => {
            crate::text::law_number_reads_back(size as nat, 10);
        },
        Section::Heartbeats { size } => {
            crate::text::law_number_reads_back(size as nat, 10);
        },
        Section::RecordsBegin { consumers } => {
            crate::text::law_number_reads_back(consumers as nat, 10);
        },
        Section::Data { slot_size, slots } => {
            crate::text::law_number_reads_back(slot_size as nat, 10);
            crate::text::law_number_reads_back(slots as nat, 10);
        },
        _ => {},
    }
}

} // verus!
