use shmfeeder::dump::{debug_print_shm, Boundary, Measures, Section};
use shmfeeder::heartbeats::HeartbeatMode;
use shmfeeder::layout::ShmQueue;
use shmfeeder::producer::{ConnectedMemoryType, ProducerBuilder};
use shmfeeder::queue::SlotLayout;
use shmfeeder::region::ShmRegion;
use shmfeeder::setup::{init_queue_at_ptr, QueueConfig};
use shmfeeder::text::{push_decimal, push_digits, push_padded_hex, push_signed};

const CONFIG: QueueConfig = QueueConfig {
    num_slots: 2,
    magic: 11,
    version: 22,
    liveness_tolerance: 100,
    max_consumers: 2,
    mode: HeartbeatMode::Full,
};

fn head(mode: HeartbeatMode) -> ShmQueue {
    let config = QueueConfig { mode, ..CONFIG };
    let mut queue = ShmRegion::<u64>::zeroed(4096, 2, 2).queue;
    init_queue_at_ptr::<u64>(&mut queue, 4096, &config, true, 5, 1000);
    queue
}

#[test]
fn numbers_are_written_in_digits() {
    let mut out = String::new();
    push_decimal(&mut out, 0);
    out.push(' ');
    push_decimal(&mut out, usize::MAX);
    out.push(' ');
    push_signed(&mut out, -17);
    out.push(' ');
    push_digits(&mut out, 0xdead_beef, 16);
    out.push(' ');
    push_padded_hex(&mut out, 0x1f, 8);
    out.push(' ');
    push_padded_hex(&mut out, 0x1_2345_6789, 8);
    assert_eq!(out, format!("0 {} -17 deadbeef 0000001f 123456789", usize::MAX));
}

#[test]
fn measures_come_from_the_head() {
    let measures = Measures::take::<u64>(&head(HeartbeatMode::Full), HeartbeatMode::Full).unwrap();
    assert_eq!(
        measures,
        Measures {
            mode: HeartbeatMode::Full,
            buffer_offset: 24,
            max_consumers: 2,
            records_begin: 88,
            records_size: 48,
            records_end: 136,
            data_begin: 192,
            slot: SlotLayout { size: 64, align: 64 },
            n_slots: 2,
            total: 320,
        }
    );
    let mut huge = head(HeartbeatMode::Full);
    huge.heartbeats.consumers.max_consumers = usize::MAX;
    assert_eq!(Measures::take::<u64>(&huge, HeartbeatMode::Full), None);
    assert!(Measures::take::<u64>(&huge, HeartbeatMode::Disabled).is_some());
    huge.header.n_slots = usize::MAX;
    assert_eq!(Measures::take::<u64>(&huge, HeartbeatMode::Disabled), None);
}

#[test]
fn section_map_is_sorted_and_stable() {
    let measures = Measures::take::<u64>(&head(HeartbeatMode::Full), HeartbeatMode::Full).unwrap();
    let map: Vec<(usize, Section)> =
        measures.section_map().iter().map(|b: &Boundary| (b.offset, b.section)).collect();
    assert_eq!(
        map,
        vec![
            (0, Section::Header { size: 48 }),
            (48, Section::Heartbeats { size: 40 }),
            (48, Section::ProducerHeartbeat),
            (64, Section::ConsumersMeta),
            (88, Section::QueueEnd { size: 88 }),
            (88, Section::RecordsBegin { consumers: 2 }),
            (88, Section::Consumer { index: 0 }),
            (112, Section::Consumer { index: 1 }),
            (136, Section::RecordsEnd { size: 48 }),
            (192, Section::Data { slot_size: 64, slots: 2 }),
            (192, Section::Slot { index: 0 }),
            (256, Section::Slot { index: 1 }),
        ]
    );
}

#[test]
fn whole_picture_of_an_object() {
    let queue = head(HeartbeatMode::Full);
    let measures = Measures::take::<u64>(&queue, HeartbeatMode::Full).unwrap();
    let mut bytes: Vec<u8> = vec![0; 35];
    for (i, c) in "Hi ~\u{7f}|".bytes().enumerate() {
        bytes[16 + i] = c;
    }
    bytes[34] = 0xab;
    let lines = debug_print_shm(0x7f00_0000_1000, &queue, &measures, &bytes);
    let zeros = "00 ".repeat(16);
    let expected = vec![
        "========== SHARED MEMORY DUMP ==========".to_string(),
        "base_ptr            = 0x7f0000001000".to_string(),
        "total_size          = 320 bytes".to_string(),
        "header_size         = 48 bytes".to_string(),
        "shm_queue_size      = 88 bytes".to_string(),
        "heartbeats_offset   = 0x00000030".to_string(),
        "heartbeats_size     = 40 bytes".to_string(),
        "consumer_meta_offset= 0x00000040".to_string(),
        "consumer_buf_offset = 0x00000018 (relative to consumer meta)".to_string(),
        "consumer_buf_begin  = 0x00000058".to_string(),
        "consumer_buf_size   = 48 bytes".to_string(),
        "max_consumers       = 2".to_string(),
        "data_padding_size   = 56 bytes".to_string(),
        "queue_offset        = 0x000000c0 (data buffer offset from base)".to_string(),
        "data_area_begin     = 0x000000c0".to_string(),
        "slot_size           = 64 bytes".to_string(),
        "slot_align          = 64 bytes".to_string(),
        "num_slots           = 2".to_string(),
        "last_committed_slot = 1".to_string(),
        "state               = 1 (Ready)".to_string(),
        "----------------------------------------".to_string(),
        "Section map:".to_string(),
        "  0x00000000  HEADER BEGIN (size = 48 bytes)".to_string(),
        "  0x00000030  HEARTBEATS BEGIN (size = 40 bytes)".to_string(),
        "  0x00000030  PRODUCER HEARTBEAT".to_string(),
        "  0x00000040  CONSUMER HEARTBEAT META".to_string(),
        "  0x00000058  SHMQUEUE END (size = 88 bytes)".to_string(),
        "  0x00000058  CONSUMER HEARTBEAT BUFFER BEGIN (item size = 24 bytes, consumers = 2)"
            .to_string(),
        "  0x00000058  CONSUMER HEARTBEAT 0 BEGIN".to_string(),
        "  0x00000070  CONSUMER HEARTBEAT 1 BEGIN".to_string(),
        "  0x00000088  CONSUMER HEARTBEAT BUFFER END (size = 48 bytes)".to_string(),
        "  0x000000c0  DATA BUFFER BEGIN (aligned slot area, slot size = 64 bytes, slots = 2)"
            .to_string(),
        "  0x000000c0  SLOT 0 BEGIN".to_string(),
        "  0x00000100  SLOT 1 BEGIN".to_string(),
        "----------------------------------------".to_string(),
        "---- 0x00000000 HEADER BEGIN (size = 48 bytes) ----".to_string(),
        format!("7f0000001000: {zeros}|................|"),
        "7f0000001010: 48 69 20 7e 7f 7c 00 00 00 00 00 00 00 00 00 00 |Hi ~.|..........|"
            .to_string(),
        format!("7f0000001020: 00 00 ab {}|...|", "   ".repeat(13)),
        "========== END SHARED MEMORY DUMP ==========".to_string(),
    ];
    assert_eq!(lines, expected);
}

#[test]
fn boundary_inside_a_line_is_marked() {
    let queue = head(HeartbeatMode::Full);
    let measures = Measures::take::<u64>(&queue, HeartbeatMode::Full).unwrap();
    let lines = debug_print_shm(0, &queue, &measures, &vec![0; 96]);
    let line = lines.iter().find(|l| l.starts_with("00000050: ")).unwrap();
    assert!(line.ends_with(
        "|................|  <-- 0x00000058 SHMQUEUE END (size = 88 bytes)  <-- 0x00000058 \
         CONSUMER HEARTBEAT BUFFER BEGIN (item size = 24 bytes, consumers = 2)  <-- 0x00000058 \
         CONSUMER HEARTBEAT 0 BEGIN"
    ));
}

#[test]
fn modes_leave_parts_out() {
    for (mode, size, heading) in [
        (HeartbeatMode::ProducerOnly, 64, true),
        (HeartbeatMode::Disabled, 48, false),
    ] {
        let mut region: ShmRegion<u64> = ShmRegion::zeroed(4096, 0, 2);
        let producer = ProducerBuilder::new("/q", 2)
            .unwrap()
            .with_heartbeat_mode(mode)
            .build(&mut region, ConnectedMemoryType::New, 5, 1000)
            .unwrap();
        let lines = producer.debug_print_queue(4096, &region.queue, &vec![]).unwrap();
        assert!(lines.contains(&format!("shm_queue_size      = {size} bytes")));
        assert!(lines.contains(&"max_consumers       = 0".to_string()));
        assert!(lines.contains(&format!("data_padding_size   = {} bytes", 64 - size)));
        assert_eq!(lines.iter().any(|l| l.starts_with("heartbeats_size     = 16")), heading);
        assert!(!lines.iter().any(|l| l.contains("CONSUMER")));
        region.queue.header.n_slots = usize::MAX;
        assert_eq!(producer.debug_print_queue(4096, &region.queue, &vec![]), None);
    }
}
