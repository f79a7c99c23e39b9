use shmfeeder::heartbeats::{ConsumerHeartbeatsMeta, HeartbeatMode};
use shmfeeder::layout::{
    align_ptr_up, calculate_consumer_buffer_gross_size,
    calculate_consumer_heartbeat_offset_meta_begin, calculate_consumer_heartbeat_offset_queue_end,
    calculate_data_buffer_offset_consumer_end, calculate_data_buffer_offset_queue_begin,
    consumers_meta_offset, header_size, queue_size, required_size, ShmState,
};
use shmfeeder::numeric::is_power_of_two;
use shmfeeder::queue::{BroadCastQueue, SlotLayout};

#[test]
fn state_codes_round_trip() {
    let states = [
        (0u8, ShmState::Starting, "Starting"),
        (1, ShmState::Ready, "Ready"),
        (2, ShmState::ShuttingDown, "ShuttingDown"),
        (3, ShmState::Uninit, "Uninit"),
        (255, ShmState::Invalid, "Invalid"),
    ];
    for (code, state, name) in states {
        assert_eq!(ShmState::from(code), state);
        assert_eq!(state.code(), code);
        assert_eq!(state.name(), name);
        assert_eq!(format!("{state:?}"), name);
    }
    for code in 4..=255u8 {
        assert_eq!(ShmState::from(code), ShmState::Invalid);
    }
}

#[test]
fn addresses_are_aligned_up() {
    assert_eq!(align_ptr_up(0, 8), 0);
    assert_eq!(align_ptr_up(1, 8), 8);
    assert_eq!(align_ptr_up(8, 8), 8);
    assert_eq!(align_ptr_up(4097, 64), 4160);
    assert_eq!(align_ptr_up(17, 1), 17);
    assert_eq!(align_ptr_up(usize::MAX - 7, 8), usize::MAX - 7);
}

#[test]
fn powers_of_two_are_recognised() {
    assert!(!is_power_of_two(0));
    for n in 1..5000usize {
        assert_eq!(is_power_of_two(n), n.is_power_of_two());
    }
    assert!(is_power_of_two(usize::MAX / 2 + 1));
}

#[allow(dead_code)]
struct Quote {
    sequence: u64,
    bid: f64,
    ask: f64,
}

#[test]
fn slots_are_padded_to_cache_lines() {
    assert_eq!(BroadCastQueue::<u8>::slot_layout(), SlotLayout { size: 64, align: 64 });
    assert_eq!(BroadCastQueue::<Quote>::slot_layout(), SlotLayout { size: 64, align: 64 });
    assert_eq!(BroadCastQueue::<[u64; 7]>::slot_layout(), SlotLayout { size: 64, align: 64 });
    assert_eq!(BroadCastQueue::<[u64; 8]>::slot_layout(), SlotLayout { size: 128, align: 64 });
    assert_eq!(BroadCastQueue::<u128>::slot_layout(), SlotLayout { size: 64, align: 64 });
    assert_eq!(BroadCastQueue::<()>::slot_layout(), SlotLayout { size: 64, align: 64 });
}

#[test]
fn head_sizes_follow_the_mode() {
    assert_eq!(header_size(), 48);
    assert_eq!(consumers_meta_offset(), 64);
    assert_eq!(queue_size(HeartbeatMode::Full), 88);
    assert_eq!(queue_size(HeartbeatMode::ProducerOnly), 64);
    assert_eq!(queue_size(HeartbeatMode::Disabled), 48);
}

#[test]
fn offsets_add_up() {
    assert_eq!(calculate_consumer_heartbeat_offset_queue_end(4096), 0);
    assert_eq!(calculate_consumer_heartbeat_offset_queue_end(4100), 4);
    assert_eq!(calculate_consumer_heartbeat_offset_meta_begin(4096), 24);
    assert_eq!(calculate_consumer_heartbeat_offset_meta_begin(4100), 28);
    assert_eq!(calculate_consumer_buffer_gross_size(4096, 32), 768);
    assert_eq!(calculate_data_buffer_offset_consumer_end::<u64>(4096 + 88 + 768), 40);
    // 88 + 768 = 856 bytes, filled up to 896.
    assert_eq!(
        calculate_data_buffer_offset_queue_begin::<u64>(4096, HeartbeatMode::Full, 32),
        896
    );
    assert_eq!(
        calculate_data_buffer_offset_queue_begin::<u64>(8192, HeartbeatMode::Full, 32),
        896
    );
    assert_eq!(
        calculate_data_buffer_offset_queue_begin::<u64>(4096, HeartbeatMode::ProducerOnly, 32),
        64
    );
    assert_eq!(
        calculate_data_buffer_offset_queue_begin::<u64>(4096, HeartbeatMode::Disabled, 32),
        64
    );
    let meta = ConsumerHeartbeatsMeta::new(32, 24);
    assert_eq!(meta.get_buffer_item(4096 + 64, 0), 4096 + 88);
    assert_eq!(meta.get_buffer_item(4096 + 64, 2), 4096 + 88 + 48);
}

#[test]
fn parts_fit_the_object() {
    for base in [4096usize, 4100, 4159, 65536] {
        for max_consumers in 0..40usize {
            for num_slots in [0usize, 1, 4, 64] {
                let offset = calculate_data_buffer_offset_queue_begin::<[u64; 9]>(
                    base,
                    HeartbeatMode::Full,
                    max_consumers,
                );
                let size = required_size::<[u64; 9]>(HeartbeatMode::Full, num_slots, max_consumers);
                assert_eq!((base + offset) % 64, 0);
                assert!(offset >= 88 + 24 * max_consumers);
                assert!(offset + 128 * num_slots <= size.unwrap());
            }
        }
    }
}

#[test]
fn sizes_beyond_a_word_are_refused() {
    assert_eq!(required_size::<u64>(HeartbeatMode::Full, 1024, 32), Some(88 + 65536 + 64 + 776 - 1));
    assert_eq!(required_size::<u64>(HeartbeatMode::Full, usize::MAX, 32), None);
    assert_eq!(required_size::<u64>(HeartbeatMode::Full, 1, usize::MAX), None);
    assert_eq!(required_size::<u64>(HeartbeatMode::Disabled, 1, usize::MAX), Some(48 + 64 + 63));
}
