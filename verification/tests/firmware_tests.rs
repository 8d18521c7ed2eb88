use td_shim::acpi::calculate_checksum;
use td_shim::bench::{detect_stack_in_buffer, BenchmarkContext, HeapUsage};
use td_shim::layout::{RuntimeMemoryLayout, TdxMpWakeupMailbox};
use td_shim::mp::{create_madt, mp_accept_memory_resource_range, td_accept_page};

#[test]
fn ensure_data_struct_size() {
    assert_eq!(core::mem::size_of::<TdxMpWakeupMailbox>(), 16);
}

#[test]
fn mailbox_encodes_little_endian() {
    let mb = TdxMpWakeupMailbox {
        command: 0x0102,
        rsvd: 0,
        apic_id: 0x0a0b0c0d,
        wakeup_vector: 0x1122334455667788,
    };
    let bytes = mb.to_bytes();
    assert_eq!(
        bytes,
        vec![
            0x02, 0x01, 0x00, 0x00, 0x0d, 0x0c, 0x0b, 0x0a, 0x88, 0x77, 0x66, 0x55, 0x44, 0x33,
            0x22, 0x11
        ]
    );
    let idle = TdxMpWakeupMailbox::default();
    assert_eq!(idle.to_bytes(), vec![0u8; 16]);
}

#[test]
fn mailbox_round_trips_through_bytes() {
    let mb = TdxMpWakeupMailbox {
        command: 1,
        rsvd: 0,
        apic_id: 7,
        wakeup_vector: 0xfffc1000,
    };
    let bytes = mb.to_bytes();
    let back = TdxMpWakeupMailbox::from_bytes(&bytes).unwrap();
    assert_eq!(back.command, 1);
    assert_eq!(back.rsvd, 0);
    assert_eq!(back.apic_id, 7);
    assert_eq!(back.wakeup_vector, 0xfffc1000);
    assert!(TdxMpWakeupMailbox::from_bytes(&bytes[..15]).is_none());
}

#[test]
fn checksum_makes_bytes_sum_to_zero() {
    assert_eq!(calculate_checksum(&[]), 0);
    assert_eq!(calculate_checksum(&[1, 2, 3]), 250);
    let data = [0x37u8, 0xff, 0x80, 0x01];
    let c = calculate_checksum(&data);
    let total: u32 = data.iter().map(|b| *b as u32).sum::<u32>() + c as u32;
    assert_eq!(total % 256, 0);
}

#[test]
fn create_madt_builds_checksummed_table() {
    let madt = create_madt(2, 0x12345678);
    assert_eq!(madt.size, 238 + 2 * 8);
    assert_eq!(&madt.data[0..4], b"APIC");
    assert_eq!(
        u32::from_le_bytes(madt.data[4..8].try_into().unwrap()),
        254
    );
    assert_eq!(madt.data[8], 1); // revision
    let sum: u32 = madt.data[..madt.size].iter().map(|b| *b as u32).sum();
    assert_eq!(sum % 256, 0);
    // local APIC interrupt controller address and flags
    assert_eq!(
        u32::from_le_bytes(madt.data[36..40].try_into().unwrap()),
        0xfee00000
    );
    assert_eq!(u32::from_le_bytes(madt.data[40..44].try_into().unwrap()), 1);
    // one local APIC record per CPU, in order
    assert_eq!(&madt.data[44..52], &[0, 8, 0, 0, 1, 0, 0, 0]);
    assert_eq!(&madt.data[52..60], &[0, 8, 1, 1, 1, 0, 0, 0]);
    // I/O APIC record
    assert_eq!(&madt.data[60..64], &[1, 12, 2, 0]);
    assert_eq!(
        u32::from_le_bytes(madt.data[64..68].try_into().unwrap()),
        0xfec00000
    );
    // wake-up mailbox record at the tail
    let mpwk = madt.size - 16;
    assert_eq!(madt.data[mpwk], 0x10);
    assert_eq!(madt.data[mpwk + 1], 16);
    assert_eq!(
        u64::from_le_bytes(madt.data[madt.size - 8..madt.size].try_into().unwrap()),
        0x12345678
    );
}

#[test]
fn accept_plan_lists_every_page_of_whole_chunks() {
    let pages = mp_accept_memory_resource_range(0x100000, 0x5000);
    assert_eq!(pages, vec![0x100000, 0x101000, 0x102000, 0x103000]);
    assert_eq!(mp_accept_memory_resource_range(0x0, 0x1fff), Vec::<u64>::new());
    let chunk = td_accept_page(0x8000, 3);
    assert_eq!(chunk, vec![0x8000, 0x9000, 0xa000]);
}

#[test]
fn detect_stack_reports_first_disturbed_word() {
    let pattern = 0x5a5a5a5a5a5a5a5au64;
    let mut buf = vec![0x5au8; 32];
    assert_eq!(detect_stack_in_buffer(&buf, pattern), None);
    buf[9] = 0;
    assert_eq!(detect_stack_in_buffer(&buf, pattern), Some(32 - 8));
    buf[0] = 0;
    assert_eq!(detect_stack_in_buffer(&buf, pattern), Some(32));
    // a trailing partial word is never read
    let buf2 = vec![0x5au8; 7];
    assert_eq!(detect_stack_in_buffer(&buf2, pattern), None);
}

#[test]
fn heap_usage_tracks_high_water_mark() {
    let mut usage = HeapUsage::new();
    usage.on_alloc(100);
    usage.on_alloc(50);
    assert_eq!(usage.used_heap, 150);
    assert_eq!(usage.max_heap, 150);
    usage.on_dealloc(120);
    assert_eq!(usage.used_heap, 30);
    assert_eq!(usage.max_heap, 150);
    usage.on_alloc(40);
    assert_eq!(usage.used_heap, 70);
    assert_eq!(usage.max_heap, 150);
}

#[test]
fn benchmark_context_starts_zeroed() {
    let layout = RuntimeMemoryLayout {
        runtime_mailbox_base: 0x10000,
        runtime_heap_base: 0x20000,
        runtime_stack_base: 0x30000,
    };
    let ctx = BenchmarkContext::new(layout, "boot");
    assert_eq!(ctx.name, "boot");
    assert_eq!(ctx.start_timestamp, 0);
    assert_eq!(ctx.end_timestamp, 0);
    assert_eq!(ctx.max_stack, 0);
    assert_eq!(ctx.max_heap, 0);
}
