//! The shape of the shared-memory object.
//!
//! From its first byte on the object holds the header, the producer's record,
//! the description of the consumer records, padding, the consumer records,
//! padding, and the slots of the ring. Records and slots are padded to their
//! alignment at the address at which the producer has mapped the object.

use crate::heartbeats::{
    HeartbeatMode, Heartbeats, CONSUMER_HEARTBEAT_ALIGN, CONSUMER_HEARTBEAT_SIZE,
};
use crate::numeric::{lemma_mask_is_mod, lemma_round_up, lemma_round_up_unique, round_up};
use crate::queue::{lemma_slot_layout, slot_align, slot_size, BroadCastQueue};
use vstd::arithmetic::power2::is_pow2;
use vstd::prelude::*;

verus! {

/// The first part of the object. `queue_offset` counts from the first byte of
/// the object to the first slot. `last_committed_slot` is the index of the slot
/// that was published last.
#[derive(Clone, Copy, Debug, PartialEq, Eq, Structural)]
pub struct ShmHeader {
    pub magic: u64,
    pub version: u64,
    pub n_slots: usize,
    pub queue_offset: usize,
    pub last_committed_slot: usize,
    pub state: u8,
}

/// The fixed head of the object: the header, then the liveness records.
#[derive(Clone, Copy, Debug, PartialEq, Eq, Structural)]
pub struct ShmQueue {
    pub header: ShmHeader,
    pub heartbeats: Heartbeats,
}

/// Where a queue is in its life.
#[derive(Clone, Copy, Debug, PartialEq, Eq, Structural)]
pub enum ShmState {
    Starting,
    Ready,
    ShuttingDown,
    Uninit,
    Invalid,
}

/// The state that a byte of the header stands for.
pub open spec fn decoded_state(value: u8) -> ShmState {
    match value {
        0 => ShmState::Starting,
        1 => ShmState::Ready,
        2 => ShmState::ShuttingDown,
        3 => ShmState::Uninit,
        _ => ShmState::Invalid,
    }
}

/// The byte of the header that stands for a state.
pub open spec fn encoded_state(state: ShmState) -> u8 {
    match state {
        ShmState::Starting => 0,
        ShmState::Ready => 1,
        ShmState::ShuttingDown => 2,
        ShmState::Uninit => 3,
        ShmState::Invalid => 255,
    }
}

/// A state survives being written into the header and read back, and a byte
/// that stands for a state other than `Invalid` is the one that state is
/// written as.
pub proof fn law_state_round_trip(state: ShmState, value: u8)
    ensures
        decoded_state(encoded_state(state)) == state,
        decoded_state(value) != ShmState::Invalid ==> encoded_state(decoded_state(value)) == value,
{
}

impl vstd::std_specs::convert::FromSpecImpl<u8> for ShmState {
    open spec fn obeys_from_spec() -> bool {
        true
    }

    open spec fn from_spec(value: u8) -> Self {
        decoded_state(value)
    }
}

impl From<u8> for ShmState {
    fn from(value: u8) -> (r: Self) {
        match value {
            0 => ShmState::Starting,
            1 => ShmState::Ready,
            2 => ShmState::ShuttingDown,
            3 => ShmState::Uninit,
            _ => ShmState::Invalid,
        }
    }
}

impl ShmState {
    /// The state's name as text.
    pub open spec fn text(self) -> Seq<char> {
        match self {
            ShmState::Starting => "Starting"@,
            ShmState::Ready => "Ready"@,
            ShmState::ShuttingDown => "ShuttingDown"@,
            ShmState::Uninit => "Uninit"@,
            ShmState::Invalid => "Invalid"@,
        }
    }

    /// The state's name.
    pub fn name(self) -> (r: &'static str)
        ensures
            r@ == self.text(),
    {
        match self {
            ShmState::Starting => "Starting",
            ShmState::Ready => "Ready",
            ShmState::ShuttingDown => "ShuttingDown",
            ShmState::Uninit => "Uninit",
            ShmState::Invalid => "Invalid",
        }
    }

    /// The byte that the header holds for this state.
    pub fn code(self) -> (r: u8)
        ensures
            r == encoded_state(self),
    {
        match self {
            ShmState::Starting => 0,
            ShmState::Ready => 1,
            ShmState::ShuttingDown => 2,
            ShmState::Uninit => 3,
            ShmState::Invalid => 255,
        }
    }
}

/// The bytes of a machine word.
pub open spec fn word_size() -> int {
    usize::BITS as int / 8
}

/// The bytes of the header: two eight-byte numbers, three words and a byte.
pub open spec fn header_size_spec() -> int {
    round_up(17 + 3 * word_size(), 8)
}

/// The bytes of the fixed head. The producer's record takes sixteen bytes, the
/// description of the consumer records three words.
pub open spec fn queue_size_spec(mode: HeartbeatMode) -> int {
    header_size_spec() + match mode {
        HeartbeatMode::Full => round_up(16 + 3 * word_size(), 8),
        HeartbeatMode::ProducerOnly => 16,
        HeartbeatMode::Disabled => 0,
    }
}

/// Where the description of the consumer records starts.
pub open spec fn consumers_meta_offset_spec() -> int {
    header_size_spec() + 16
}

/// The bytes of the header.
pub fn header_size() -> (r: usize)
    ensures
        r == header_size_spec(),
        r == 32 || r == 48,
{
    if usize::BITS == 64 {
        48
    } else {
        32
    }
}

/// The bytes of the fixed head.
pub fn queue_size(mode: HeartbeatMode) -> (r: usize)
    ensures
        r == queue_size_spec(mode),
        32 <= r <= 88,
{
    match mode {
        HeartbeatMode::Full => if usize::BITS == 64 {
            header_size() + 40
        } else {
            header_size() + 32
        },
        HeartbeatMode::ProducerOnly => header_size() + 16,
        HeartbeatMode::Disabled => header_size(),
    }
}

/// Where the description of the consumer records starts.
pub fn consumers_meta_offset() -> (r: usize)
    ensures
        r == consumers_meta_offset_spec(),
        r == 48 || r == 64,
{
    header_size() + 16
}

/// The smallest address from `base` on that is a multiple of `align`, where
/// `align` is a power of two.
pub fn align_ptr_up(base: usize, align: usize) -> (r: usize)
    requires
        align >= 1,
        base + align - 1 <= usize::MAX,
    ensures
        r == ((base + align - 1) as usize) & !((align - 1) as usize),
        is_pow2(align as int) ==> r == round_up(base as int, align as int),
{
    let end: usize = base + (align - 1);
    let mask: usize = align - 1;
    proof {
        if is_pow2(align as int) {
            lemma_mask_is_mod(end, align);
            assert(end & !mask == end - (end & mask)) by (bit_vector);
            let r = end & !mask;
            vstd::arithmetic::div_mod::lemma_fundamental_div_mod(end as int, align as int);
            vstd::arithmetic::mul::lemma_mul_is_commutative(
                end as int / align as int,
                align as int,
            );
        }
    }
    end & !mask
}

/// The padding between the fixed head of an object at `base` and its consumer
/// records.
pub open spec fn consumer_padding(base: int) -> int {
    let head_end = base + queue_size_spec(HeartbeatMode::Full);
    round_up(head_end, CONSUMER_HEARTBEAT_ALIGN as int) - head_end
}

/// The bytes between the fixed head and the end of the consumer records.
pub open spec fn consumer_area(base: int, mode: HeartbeatMode, max_consumers: int) -> int {
    match mode {
        HeartbeatMode::Full => consumer_padding(base) + max_consumers * CONSUMER_HEARTBEAT_SIZE,
        _ => 0,
    }
}

/// Where the slots start, counted from the first byte of an object at `base`.
pub open spec fn data_offset<T>(base: int, mode: HeartbeatMode, max_consumers: int) -> int {
    let consumer_end = queue_size_spec(mode) + consumer_area(base, mode, max_consumers);
    round_up(base + consumer_end, slot_align::<T>()) - base
}

/// The bytes of an object: all its parts, and what padding can take at most.
pub open spec fn object_size<T>(mode: HeartbeatMode, num_slots: int, max_consumers: int) -> int {
    queue_size_spec(mode) + slot_size::<T>() * num_slots + slot_align::<T>() + match mode {
        HeartbeatMode::Full => CONSUMER_HEARTBEAT_SIZE * max_consumers + CONSUMER_HEARTBEAT_ALIGN,
        _ => 0,
    } - 1
}

/// The padding between the fixed head of an object at `base` and its consumer
/// records.
pub fn calculate_consumer_heartbeat_offset_queue_end(base: usize) -> (r: usize)
    requires
        base + queue_size_spec(HeartbeatMode::Full) + CONSUMER_HEARTBEAT_ALIGN - 1 <= usize::MAX,
    ensures
        r == consumer_padding(base as int),
        r < CONSUMER_HEARTBEAT_ALIGN,
{
    let header_end: usize = base + queue_size(HeartbeatMode::Full);
    proof {
        lemma_round_up(header_end as int, CONSUMER_HEARTBEAT_ALIGN as int);
        lemma_consumer_align();
    }
    align_ptr_up(header_end, CONSUMER_HEARTBEAT_ALIGN).saturating_sub(header_end)
}

/// Where the consumer records start, counted from their description.
pub fn calculate_consumer_heartbeat_offset_meta_begin(base: usize) -> (r: usize)
    requires
        base + queue_size_spec(HeartbeatMode::Full) + CONSUMER_HEARTBEAT_ALIGN - 1 <= usize::MAX,
    ensures
        r == queue_size_spec(HeartbeatMode::Full) - consumers_meta_offset_spec() + consumer_padding(
            base as int,
        ),
{
    let queue_end_offset = calculate_consumer_heartbeat_offset_queue_end(base);
    queue_size(HeartbeatMode::Full) - consumers_meta_offset() + queue_end_offset
}

/// The bytes between the fixed head of an object at `base` and the end of its
/// consumer records.
pub fn calculate_consumer_buffer_gross_size(base: usize, max_consumers: usize) -> (r: usize)
    requires
        base + queue_size_spec(HeartbeatMode::Full) + CONSUMER_HEARTBEAT_ALIGN - 1 + max_consumers
            * CONSUMER_HEARTBEAT_SIZE <= usize::MAX,
    ensures
        r == consumer_area(base as int, HeartbeatMode::Full, max_consumers as int),
{
    calculate_consumer_heartbeat_offset_queue_end(base) + max_consumers * CONSUMER_HEARTBEAT_SIZE
}

/// The padding between the end of the consumer records, at the address
/// `consumer_end`, and the first slot.
pub fn calculate_data_buffer_offset_consumer_end<T>(consumer_end: usize) -> (r: usize)
    requires
        consumer_end + slot_align::<T>() - 1 <= usize::MAX,
    ensures
        r == round_up(consumer_end as int, slot_align::<T>()) - consumer_end,
        r < slot_align::<T>(),
{
    proof {
        lemma_slot_layout::<T>();
        lemma_round_up(consumer_end as int, slot_align::<T>());
    }
    let align = BroadCastQueue::<T>::slot_layout().align;
    let data_ptr = align_ptr_up(consumer_end, align);
    data_ptr.saturating_sub(consumer_end)
}

/// Where the slots start, counted from the first byte of an object at `base`.
pub fn calculate_data_buffer_offset_queue_begin<T>(
    base: usize,
    mode: HeartbeatMode,
    max_consumers: usize,
) -> (r: usize)
    requires
        base + object_size::<T>(mode, 0, max_consumers as int) <= usize::MAX,
    ensures
        r == data_offset::<T>(base as int, mode, max_consumers as int),
{
    proof {
        lemma_slot_layout::<T>();
        lemma_consumer_align();
        lemma_round_up(
            base + queue_size_spec(HeartbeatMode::Full),
            CONSUMER_HEARTBEAT_ALIGN as int,
        );
    }
    let head_size = queue_size(mode);
    let consumer_buffer_size: usize = match mode {
        HeartbeatMode::Full => calculate_consumer_buffer_gross_size(base, max_consumers),
        _ => 0,
    };
    let consumer_end = head_size + consumer_buffer_size;
    calculate_data_buffer_offset_consumer_end::<T>(base + consumer_end) + consumer_end
}

/// The bytes of an object with `num_slots` slots and `max_consumers` consumer
/// records, or `None` where they cannot be counted in a word.
pub fn required_size<T>(mode: HeartbeatMode, num_slots: usize, max_consumers: usize) -> (r: Option<
    usize,
>)
    ensures
        r == if object_size::<T>(mode, num_slots as int, max_consumers as int) <= usize::MAX {
            Some(object_size::<T>(mode, num_slots as int, max_consumers as int) as usize)
        } else {
            None
        },
{
    proof {
        lemma_slot_layout::<T>();
    }
    let layout = BroadCastQueue::<T>::slot_layout();
    assert(slot_size::<T>() * num_slots >= 0) by (nonlinear_arith)
        requires
            slot_size::<T>() >= 0,
    ;
    let consumers: usize = match mode {
        HeartbeatMode::Full => {
            let records: usize = CONSUMER_HEARTBEAT_SIZE.checked_mul(max_consumers)?;
            records.checked_add(CONSUMER_HEARTBEAT_ALIGN)?
        },
        _ => 0,
    };
    let slots: usize = layout.size.checked_mul(num_slots)?;
    let head: usize = queue_size(mode).checked_add(slots)?;
    let padded: usize = head.checked_add(layout.align - 1)?;
    padded.checked_add(consumers)
}

proof fn lemma_consumer_align()
    ensures
        is_pow2(CONSUMER_HEARTBEAT_ALIGN as int),
{
    reveal_with_fuel(is_pow2, 5);
}

/// How many bytes the head of an object takes. Where words have eight bytes, the header
/// takes forty-eight, the producer's record sixteen and the description of the consumer
/// records twenty-four; where they have four, these are thirty-two, sixteen and sixteen.
pub proof fn law_head_in_bytes()
    ensures
        usize::BITS == 64 || usize::BITS == 32,
        ({
            let header: int = if usize::BITS == 64 {
                48
            } else {
                32
            };
            let meta: int = if usize::BITS == 64 {
                24
            } else {
                16
            };
            &&& header_size_spec() == header
            &&& queue_size_spec(HeartbeatMode::Disabled) == header
            &&& queue_size_spec(HeartbeatMode::ProducerOnly) == header + 16
            &&& queue_size_spec(HeartbeatMode::Full) == header + 16 + meta
            &&& consumers_meta_offset_spec() == header + 16
        }),
{
    lemma_round_up(17 + 3 * word_size(), 8);
    lemma_round_up(16 + 3 * word_size(), 8);
}

/// The parts of an object lie behind one another inside it, wherever it is
/// mapped: first the fixed head, then the consumer records at a multiple of their
/// alignment, then all slots at a multiple of theirs.
pub proof fn law_parts_fit_the_object<T>(
    base: int,
    mode: HeartbeatMode,
    num_slots: int,
    max_consumers: int,
)
    requires
        base >= 0,
        num_slots >= 0,
        max_consumers >= 0,
    ensures
        ({
            let head = queue_size_spec(mode);
            let records = head + consumer_padding(base);
            let data = data_offset::<T>(base, mode, max_consumers);
            &&& mode == HeartbeatMode::Full ==> {
                &&& head <= records
                &&& (base + records) % CONSUMER_HEARTBEAT_ALIGN as int == 0
                &&& records + max_consumers * CONSUMER_HEARTBEAT_SIZE <= data
            }
            &&& head <= data
            &&& (base + data) % slot_align::<T>() == 0
            &&& data + num_slots * slot_size::<T>() <= object_size::<T>(
                mode,
                num_slots,
                max_consumers,
            )
        }),
{
    lemma_slot_layout::<T>();
    let head = queue_size_spec(mode);
    lemma_round_up(base + queue_size_spec(HeartbeatMode::Full), CONSUMER_HEARTBEAT_ALIGN as int);
    let consumer_end = head + consumer_area(base, mode, max_consumers);
    lemma_round_up(base + consumer_end, slot_align::<T>());
    assert(num_slots * slot_size::<T>() == slot_size::<T>() * num_slots) by (nonlinear_arith);
    assert(max_consumers * CONSUMER_HEARTBEAT_SIZE >= 0) by (nonlinear_arith)
        requires
            max_consumers >= 0,
    ;
}

/// An object has the same layout at every base that is a multiple of the slot
/// alignment, as every mapping of whole pages is for slots of at most a page's
/// alignment. So a consumer finds the slots where the producer's offset says,
/// and finds them aligned.
pub proof fn law_layout_does_not_depend_on_base<T>(
    base: int,
    other: int,
    mode: HeartbeatMode,
    max_consumers: int,
)
    requires
        base % slot_align::<T>() == 0,
        other % slot_align::<T>() == 0,
    ensures
        data_offset::<T>(base, mode, max_consumers) == data_offset::<T>(
            other,
            mode,
            max_consumers,
        ),
        mode == HeartbeatMode::Full ==> consumer_padding(base) == consumer_padding(other),
        (other + data_offset::<T>(base, mode, max_consumers)) % slot_align::<T>() == 0,
{
    lemma_slot_layout::<T>();
    let align = slot_align::<T>();
    lemma_aligned_to_eight::<T>(base);
    lemma_aligned_to_eight::<T>(other);
    let head = queue_size_spec(HeartbeatMode::Full);
    lemma_round_up_shifts(base, head, 8);
    lemma_round_up_shifts(other, head, 8);
    let consumer_end = queue_size_spec(mode) + consumer_area(base, mode, max_consumers);
    assert(consumer_end == queue_size_spec(mode) + consumer_area(other, mode, max_consumers));
    lemma_round_up_shifts(base, consumer_end, align);
    lemma_round_up_shifts(other, consumer_end, align);
    lemma_round_up(other + consumer_end, align);
}

proof fn lemma_pow2_is_multiple_of_eight(align: int)
    requires
        is_pow2(align),
        align >= 8,
    ensures
        align % 8 == 0,
{
    reveal_with_fuel(is_pow2, 4);
}

proof fn lemma_aligned_to_eight<T>(base: int)
    requires
        base % slot_align::<T>() == 0,
    ensures
        base % 8 == 0,
{
    lemma_slot_layout::<T>();
    let align = slot_align::<T>();
    lemma_pow2_is_multiple_of_eight(align);
    let (q, e) = (base / align, align / 8);
    vstd::arithmetic::div_mod::lemma_fundamental_div_mod(base, align);
    assert(base == 8 * (e * q)) by (nonlinear_arith)
        requires
            base == align * q,
            align == 8 * e,
    ;
}

/// Rounding up commutes with adding a multiple.
proof fn lemma_round_up_shifts(base: int, x: int, align: int)
    requires
        align > 0,
        base % align == 0,
    ensures
        round_up(base + x, align) == base + round_up(x, align),
{
    lemma_round_up(x, align);
    vstd::arithmetic::div_mod::lemma_add_mod_noop(base, round_up(x, align), align);
    lemma_round_up_unique(base + x, align, base + round_up(x, align));
}

/// How large an object is: the head and what padding may take, and then as many bytes
/// more for each slot as a slot has, and twenty-four for each consumer record where there
/// are any. Padding takes less than a slot's alignment before the slots, and at most
/// eight bytes before the records.
pub proof fn law_object_grows_with_its_parts<T>(
    mode: HeartbeatMode,
    num_slots: int,
    max_consumers: int,
)
    requires
        num_slots >= 0,
        max_consumers >= 0,
    ensures
        object_size::<T>(HeartbeatMode::Full, 0, 0) == queue_size_spec(HeartbeatMode::Full) + 8 + (
        slot_align::<T>() - 1),
        mode != HeartbeatMode::Full ==> object_size::<T>(mode, 0, 0) == queue_size_spec(mode) + (
        slot_align::<T>() - 1),
        object_size::<T>(mode, num_slots + 1, max_consumers) == object_size::<T>(
            mode,
            num_slots,
            max_consumers,
        ) + slot_size::<T>(),
        object_size::<T>(mode, num_slots, max_consumers + 1) == object_size::<T>(
            mode,
            num_slots,
            max_consumers,
        ) + if mode == HeartbeatMode::Full {
            24int
        } else {
            0int
        },
{
    assert(slot_size::<T>() * (num_slots + 1) == slot_size::<T>() * num_slots + slot_size::<T>())
        by (nonlinear_arith);
    assert(slot_size::<T>() * 0 == 0) by (nonlinear_arith);
}

/// Padding is never more than it has to be: the consumer records start less than their
/// alignment behind the head, and the slots less than theirs behind what comes before.
pub proof fn law_padding_is_minimal<T>(base: int, mode: HeartbeatMode, max_consumers: int)
    ensures
        ({
            let head = queue_size_spec(mode);
            let before = if mode == HeartbeatMode::Full {
                head + consumer_padding(base) + max_consumers * 24
            } else {
                head
            };
            let data = data_offset::<T>(base, mode, max_consumers);
            &&& 0 <= consumer_padding(base) < 8
            &&& (base + queue_size_spec(HeartbeatMode::Full) + consumer_padding(base)) % 8 == 0
            &&& before <= data < before + slot_align::<T>()
            &&& (base + data) % slot_align::<T>() == 0
        }),
{
    lemma_slot_layout::<T>();
    lemma_round_up(base + queue_size_spec(HeartbeatMode::Full), 8);
    lemma_round_up(
        base + queue_size_spec(mode) + consumer_area(base, mode, max_consumers),
        slot_align::<T>(),
    );
}

/// The bytes for the states are the numbers from zero to three in the order in which a
/// queue goes through them; every other byte stands for none.
pub proof fn law_state_bytes(value: u8)
    ensures
        decoded_state(value) == ShmState::Starting <==> value == 0,
        decoded_state(value) == ShmState::Ready <==> value == 1,
        decoded_state(value) == ShmState::ShuttingDown <==> value == 2,
        decoded_state(value) == ShmState::Uninit <==> value == 3,
        decoded_state(value) == ShmState::Invalid <==> value > 3,
        encoded_state(ShmState::Ready) == 1,
        encoded_state(ShmState::Invalid) == 255,
{
}

} // verus!
