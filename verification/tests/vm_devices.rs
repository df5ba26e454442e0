use wawona_relay::relay_core::{DiskResizePlan, GuestPageSize, HostPageSize};
use wawona_relay::vm::bus::{Bus, PL011_BASE, UART_FR};
use wawona_relay::vm::exception::{El1State, ExceptionClass};
use wawona_relay::vm::guest::GuestMemory;
use wawona_relay::vm::mmu::{walk_stage1, Access, Mmu};
use wawona_relay::vm::page_translate::PageTranslate;
use wawona_relay::vm::sysregs::{SysRegs, CNTFRQ_EL0, CNTPCT_EL0, CURRENT_EL, SCTLR_EL1, TTBR0_EL1};
use wawona_relay::vm::timer::{Gic, Timer};
use wawona_relay::vm::virtio_block::{parse_chain, BlockDevice, Descriptor};
use wawona_relay::vm::virtio_console::Console;
use wawona_relay::vm::virtio_mmio::{
    Transport, INTERRUPT_USED_BUFFER, STATUS_ACKNOWLEDGE, STATUS_DRIVER, STATUS_DRIVER_OK,
    STATUS_FEATURES_OK,
};
use wawona_relay::vm::vsock::Vsock;

const SECTOR_BYTES: usize = 512;

fn allocate(page: GuestPageSize, bytes: u64) -> GuestMemory {
    GuestMemory::allocate(page, 4096, bytes).unwrap()
}

#[test]
fn pl011_collects_early_console_without_aliasing_ram() {
    let mut bus = Bus::new();
    bus.write32(PL011_BASE, b'R' as u32).unwrap();
    bus.write32(PL011_BASE, b'\n' as u32).unwrap();
    assert_eq!(bus.console(), b"R\n");
    assert_eq!(bus.read32(PL011_BASE + UART_FR).unwrap(), 0);
    assert!(bus.write32(PL011_BASE - 4, 0).is_err());
}

#[test]
fn synchronous_abort_preserves_fault_context() {
    let mut el1 = El1State::new(0x4000);
    assert_eq!(el1.enter_sync(ExceptionClass::DataAbort, 0x8123, 0x3c5), 0x4200);
    assert_eq!(el1.elr_el1, 0x8123);
    assert_eq!(el1.spsr_el1, 0x3c5);
    assert_eq!(el1.esr_el1, 0x9600_0000);
}

#[test]
fn physical_memory_is_bounded_and_cross_page_safe() {
    let mut memory = allocate(GuestPageSize::four_kib(), 4096 * 2);
    memory.write(4095, &[1, 2, 3]).unwrap();
    let mut out = [0; 3];
    memory.read(4095, &mut out).unwrap();
    assert_eq!(out, [1, 2, 3]);
    assert!(memory.write(8191, &[9, 9]).is_err());
}

#[test]
fn guest_4k_on_host_16k_rounds_arena() {
    let memory =
        GuestMemory::allocate_on_host(GuestPageSize::four_kib(), HostPageSize::sixteen_kib(), 4096 * 3)
            .unwrap();
    assert_eq!(memory.len(), 4096 * 3);
    assert_eq!(memory.host_arena_len(), 16384);
    assert_eq!(memory.translate().pair_label(), "guest-4k-on-host-16k");
}

#[test]
fn out_of_range_access_names_address_length_and_size() {
    let memory = allocate(GuestPageSize::four_kib(), 4096);
    let mut out = [0; 4];
    let error = memory.read(0xffe, &mut out).unwrap_err();
    assert_eq!(
        error.message(),
        "guest physical memory access out of range address=0xffe len=4 memory=0x1000"
    );
    assert!(GuestMemory::allocate(GuestPageSize::four_kib(), 4096, 4095).is_err());
    assert!(GuestMemory::allocate(GuestPageSize::four_kib(), 4096, 0).is_err());
}

#[test]
fn maps_and_faults_by_permission() {
    let mut mmu = Mmu::new(GuestPageSize::sixteen_kib());
    mmu.map(0x4000, 0x8000, 16384, Access::rx()).unwrap();
    assert_eq!(mmu.translate(0x4004, Access::rx()).unwrap(), 0x8004);
    assert!(mmu.translate(0x4004, Access::rw()).is_err());
    assert!(mmu.translate(0x9000, Access::rx()).is_err());
}

#[test]
fn overlapping_and_unaligned_mappings_are_refused() {
    let mut mmu = Mmu::new(GuestPageSize::four_kib());
    mmu.map(0x1000, 0x2000, 0x2000, Access::rw()).unwrap();
    assert_eq!(
        mmu.map(0x2000, 0x9000, 0x1000, Access::rw()).unwrap_err().message(),
        "MMU mapping overlaps an existing page"
    );
    assert_eq!(
        mmu.map(0x3001, 0x9000, 0x1000, Access::rw()).unwrap_err().message(),
        "MMU mappings must be non-empty and page aligned"
    );
    assert_eq!(mmu.translate(0x2fff, Access::rw()).unwrap(), 0x9fff);
}

#[test]
fn walks_4k_and_16k_final_page_descriptors() {
    for page in [GuestPageSize::four_kib(), GuestPageSize::sixteen_kib()] {
        let bytes = page.bytes() as u64 * 8;
        let mut memory = allocate(page, bytes);
        let shifts = if page.0 == 4096 { [39, 30, 21, 12] } else { [47, 36, 25, 14] };
        let entries = if page.0 == 4096 { 512 } else { 2048 };
        let va = page.0 as u64 + 0x44;
        for (level, shift) in shifts.into_iter().enumerate() {
            let table = level as u64 * page.0 as u64;
            let index = (va >> shift) & (entries - 1);
            let descriptor = (if level == 3 {
                0x400000 | 3
            } else {
                (level as u64 + 1) * page.0 as u64 | 3
            }) | (1u64 << 60);
            memory.write(table + index * 8, &descriptor.to_le_bytes()).unwrap();
        }
        assert_eq!(walk_stage1(&memory, va, 0, page).unwrap(), 0x400044);
    }
}

#[test]
fn invalid_descriptor_is_a_translation_fault() {
    let memory = allocate(GuestPageSize::four_kib(), 4096 * 2);
    assert_eq!(
        walk_stage1(&memory, 0x1234, 0, GuestPageSize::four_kib()).unwrap_err().message(),
        "stage-1 translation fault va=0x1234"
    );
    assert!(walk_stage1(&memory, 0, 0, GuestPageSize(8192)).is_err());
}

#[test]
fn same_size_is_identity() {
    let t = PageTranslate::new(GuestPageSize::four_kib(), HostPageSize::four_kib()).unwrap();
    assert_eq!(t.host_arena_bytes(4096 * 4).unwrap(), 4096 * 4);
    assert_eq!(t.guest_to_host_offset(0x1000).unwrap(), 0x1000);
    assert_eq!(t.host_pages_per_guest_page(), 1);
    assert_eq!(t.guest_pages_per_host_page(), 1);
}

#[test]
fn guest_4k_on_host_16k_packs() {
    let t = PageTranslate::new(GuestPageSize::four_kib(), HostPageSize::sixteen_kib()).unwrap();
    assert_eq!(t.guest_pages_per_host_page(), 4);
    assert_eq!(t.host_pages_per_guest_page(), 1);
    assert_eq!(t.host_arena_bytes(4096 * 3).unwrap(), 16384);
    assert_eq!(t.guest_to_host_offset(0x2000).unwrap(), 0x2000);
    assert_eq!(t.pair_label(), "guest-4k-on-host-16k");
}

#[test]
fn guest_16k_on_host_4k_spans() {
    let t = PageTranslate::new(GuestPageSize::sixteen_kib(), HostPageSize::four_kib()).unwrap();
    assert_eq!(t.host_pages_per_guest_page(), 4);
    assert_eq!(t.guest_pages_per_host_page(), 1);
    assert_eq!(t.host_arena_bytes(16384).unwrap(), 16384);
    assert_eq!(t.guest_to_host_offset(0x4000).unwrap(), 0x4000);
}

#[test]
fn rejects_unaligned_guest_size() {
    let t = PageTranslate::new(GuestPageSize::sixteen_kib(), HostPageSize::sixteen_kib()).unwrap();
    assert!(t.host_arena_bytes(4096).is_err());
}

#[test]
fn all_four_pairs_construct() {
    for guest in [GuestPageSize::four_kib(), GuestPageSize::sixteen_kib()] {
        for host in [HostPageSize::four_kib(), HostPageSize::sixteen_kib()] {
            let t = PageTranslate::new(guest, host).unwrap();
            let arena = t.host_arena_bytes(guest.0 as u64 * 8).unwrap();
            assert!(arena >= guest.0 as u64 * 8);
            assert_eq!(arena % host.0 as u64, 0);
        }
    }
}

#[test]
fn detected_host_pairs_with_guest() {
    let t = PageTranslate::detect_host(GuestPageSize::four_kib(), 16384).unwrap();
    assert_eq!(t.pair_label(), "guest-4k-on-host-16k");
    assert!(t.host_arena_bytes(0).is_err());
    assert!(t.host_arena_bytes(u64::MAX - 4095).is_err());
}

#[test]
fn el1_registers_preserve_mmu_state_and_counter_is_monotonic() {
    let mut regs = SysRegs::new(24_000_000).unwrap();
    regs.write(TTBR0_EL1, 0x4000).unwrap();
    regs.write(SCTLR_EL1, 1).unwrap();
    regs.tick(12);
    assert_eq!(regs.read(TTBR0_EL1).unwrap(), 0x4000);
    assert_eq!(regs.read(SCTLR_EL1).unwrap() & 1, 1);
    assert_eq!(regs.read(CNTFRQ_EL0).unwrap(), 24_000_000);
    assert_eq!(regs.read(CNTPCT_EL0).unwrap(), 12);
    assert_eq!(regs.read(CURRENT_EL).unwrap(), 4);
    assert!(regs.write(CNTFRQ_EL0, 1).is_err());
}

#[test]
fn unknown_system_registers_are_named() {
    let regs = SysRegs::new(1).unwrap();
    assert_eq!(
        regs.read(0x12).unwrap_err().message(),
        "StaticCpu unimplemented system register 0x0012"
    );
    assert!(SysRegs::new(0).is_err());
}

#[test]
fn timer_raises_deterministic_irq() {
    let mut g = Gic::new();
    let mut t = Timer::new(27);
    t.set_deadline(10).unwrap();
    t.advance(9, &mut g);
    assert_eq!(g.acknowledge(), None);
    t.advance(1, &mut g);
    assert_eq!(g.acknowledge(), Some(27));
}

#[test]
fn interrupts_are_acknowledged_lowest_first_once() {
    let mut g = Gic::new();
    g.raise(30);
    g.raise(5);
    g.raise(30);
    g.raise(17);
    assert_eq!(g.acknowledge(), Some(5));
    assert_eq!(g.acknowledge(), Some(17));
    assert_eq!(g.acknowledge(), Some(30));
    assert_eq!(g.acknowledge(), None);
    let mut t = Timer::new(1);
    t.advance(5, &mut g);
    assert!(t.set_deadline(5).is_err());
}

#[test]
fn console_is_bounded() {
    let mut c = Console::new(4);
    c.write_output(b"hello");
    assert_eq!(c.output(), b"ello");
    c.push_input(b"abcde");
    let mut out = [0; 4];
    assert_eq!(c.read_input(&mut out), 4);
    assert_eq!(&out, b"abcd");
}

#[test]
fn vsock_delivers_bounded_packets() {
    let mut v = Vsock::new(8);
    v.open(1024);
    v.send(1024, b"hello".to_vec()).unwrap();
    assert_eq!(v.receive(1024).unwrap(), b"hello");
    assert!(v.send(1024, vec![0; 9]).is_err());
    assert!(v.send(7, vec![0; 1]).is_err());
    assert_eq!(v.receive(7), None);
}

fn configured_transport() -> Transport {
    let mut transport = Transport::new(2, 1 << 32, 128);
    transport.write(0x014, 1).unwrap();
    assert_eq!(transport.read(0x010).unwrap(), 1);
    transport.write(0x024, 1).unwrap();
    transport.write(0x020, 1).unwrap();
    transport.write(0x038, 8).unwrap();
    transport.write(0x080, 0x100).unwrap();
    transport.write(0x090, 0x200).unwrap();
    transport.write(0x0a0, 0x300).unwrap();
    transport.write(0x044, 1).unwrap();
    transport.write(0x070, STATUS_ACKNOWLEDGE).unwrap();
    transport.write(0x070, STATUS_ACKNOWLEDGE | STATUS_DRIVER).unwrap();
    transport
        .write(0x070, STATUS_ACKNOWLEDGE | STATUS_DRIVER | STATUS_FEATURES_OK)
        .unwrap();
    transport
        .write(
            0x070,
            STATUS_ACKNOWLEDGE | STATUS_DRIVER | STATUS_FEATURES_OK | STATUS_DRIVER_OK,
        )
        .unwrap();
    transport
}

#[test]
fn negotiates_modern_queue_before_driver_ready() {
    let mut transport = configured_transport();
    transport.write(0x050, 0).unwrap();
    assert_eq!(transport.take_notification(), Some(0));
    assert!(transport.write(0x038, 129).is_err());
}

#[test]
fn consumes_available_and_publishes_used_element() {
    let mut memory = allocate(GuestPageSize::four_kib(), 4096);
    memory.write(0x202, &1u16.to_le_bytes()).unwrap();
    memory.write(0x204, &3u16.to_le_bytes()).unwrap();
    let mut transport = configured_transport();
    assert_eq!(transport.pop_available(&memory).unwrap(), Some(3));
    assert_eq!(transport.pop_available(&memory).unwrap(), None);
    transport.complete(&mut memory, 3, 512).unwrap();
    let mut used = [0; 10];
    memory.read(0x302, &mut used).unwrap();
    assert_eq!(u16::from_le_bytes(used[..2].try_into().unwrap()), 1);
    assert_eq!(u32::from_le_bytes(used[2..6].try_into().unwrap()), 3);
    assert_eq!(u32::from_le_bytes(used[6..10].try_into().unwrap()), 512);
    assert_eq!(transport.read(0x060).unwrap(), INTERRUPT_USED_BUFFER);
    transport.write(0x064, INTERRUPT_USED_BUFFER).unwrap();
    assert_eq!(transport.read(0x060).unwrap(), 0);
}

#[test]
fn rejects_bad_feature_and_status_sequences() {
    let mut transport = Transport::new(2, 0, 8);
    transport.write(0x024, 1).unwrap();
    transport.write(0x020, 1).unwrap();
    assert!(transport
        .write(0x070, STATUS_ACKNOWLEDGE | STATUS_DRIVER | STATUS_FEATURES_OK)
        .is_err());
    assert!(transport.write(0x070, STATUS_DRIVER_OK).is_err());
}

#[test]
fn status_cannot_clear_bits_without_reset_and_unknown_registers_fail() {
    let mut transport = configured_transport();
    assert_eq!(
        transport.write(0x070, STATUS_ACKNOWLEDGE).unwrap_err().message(),
        "virtio status bits cannot be cleared without reset"
    );
    transport.write(0x070, 0).unwrap();
    assert_eq!(transport.read(0x070).unwrap(), 0);
    assert_eq!(transport.read(0x044).unwrap(), 0);
    assert_eq!(transport.read(0x0ff).unwrap_err().message(), "virtio-mmio read unsupported 0xff");
    assert_eq!(transport.read(0).unwrap(), 0x7472_6976);
}

#[test]
fn malformed_tables_return_errors_without_panicking() {
    let mut memory = allocate(GuestPageSize::four_kib(), 4096);
    assert!(parse_chain(&memory, u64::MAX - 8, 1, 2).is_err());
    let mut raw = [0; 16];
    raw[12..14].copy_from_slice(&4u16.to_le_bytes());
    memory.write(0, &raw).unwrap();
    assert!(parse_chain(&memory, 0, 0, 1).is_err());
}

#[test]
fn invalid_completion_cannot_change_disk() {
    let mut memory = allocate(GuestPageSize::four_kib(), 4096);
    memory.write(0, &1u32.to_le_bytes()).unwrap();
    memory.write(512, &[9; 512]).unwrap();
    let mut disk = BlockDevice::new(vec![7; 512], 4).unwrap();
    let chain = [
        Descriptor { address: 0, length: 16, writable: false },
        Descriptor { address: 512, length: 512, writable: false },
        Descriptor { address: 4096, length: 1, writable: true },
    ];
    assert!(disk.process(&mut memory, &chain).is_err());
    assert_eq!(disk.read_sector(0).unwrap(), [7; 512]);
}

#[test]
fn parsed_request_reads_sector_and_completes_on_both_page_sizes() {
    for page in [GuestPageSize::four_kib(), GuestPageSize::sixteen_kib()] {
        let mut memory = allocate(page, page.bytes() as u64);
        for (index, (address, length, flags, next)) in
            [(128u64, 16u32, 1u16, 1u16), (512, 512, 3, 2), (1024, 1, 2, 0)].into_iter().enumerate()
        {
            let mut raw = [0; 16];
            raw[..8].copy_from_slice(&address.to_le_bytes());
            raw[8..12].copy_from_slice(&length.to_le_bytes());
            raw[12..14].copy_from_slice(&flags.to_le_bytes());
            raw[14..].copy_from_slice(&next.to_le_bytes());
            memory.write(index as u64 * 16, &raw).unwrap();
        }
        memory.write(1024, &[255]).unwrap();
        let chain = parse_chain(&memory, 0, 0, 3).unwrap();
        let mut disk = BlockDevice::new(vec![7; 512], 4).unwrap();
        disk.process(&mut memory, &chain).unwrap();
        let mut data = [0; 512];
        memory.read(512, &mut data).unwrap();
        assert_eq!(data, [7; 512]);
        let mut status = [255];
        memory.read(1024, &mut status).unwrap();
        assert_eq!(status, [0]);
    }
}

#[test]
fn mmio_notification_drains_block_queue_and_raises_interrupt() {
    let mut memory = allocate(GuestPageSize::four_kib(), 4096);
    for (index, (address, length, flags, next)) in
        [(0x600u64, 16u32, 1u16, 1u16), (0x700, 512, 3, 2), (0x900, 1, 2, 0)].into_iter().enumerate()
    {
        let mut raw = [0; 16];
        raw[..8].copy_from_slice(&address.to_le_bytes());
        raw[8..12].copy_from_slice(&length.to_le_bytes());
        raw[12..14].copy_from_slice(&flags.to_le_bytes());
        raw[14..].copy_from_slice(&next.to_le_bytes());
        memory.write(0x100 + index as u64 * 16, &raw).unwrap();
    }
    memory.write(0x202, &1u16.to_le_bytes()).unwrap();
    memory.write(0x204, &0u16.to_le_bytes()).unwrap();
    memory.write(0x900, &[255]).unwrap();

    let mut transport = Transport::new(2, 1 << 32, 8);
    transport.write(0x024, 1).unwrap();
    transport.write(0x020, 1).unwrap();
    transport.write(0x038, 8).unwrap();
    transport.write(0x080, 0x100).unwrap();
    transport.write(0x090, 0x200).unwrap();
    transport.write(0x0a0, 0x300).unwrap();
    transport.write(0x044, 1).unwrap();
    for status in [1, 3, 11, 15] {
        transport.write(0x070, status).unwrap();
    }
    transport.write(0x050, 0).unwrap();

    let mut disk = BlockDevice::new(vec![7; 512], 4).unwrap();
    assert_eq!(disk.process_notified_queue(&mut transport, &mut memory).unwrap(), 1);
    let mut data = [0; 512];
    memory.read(0x700, &mut data).unwrap();
    assert_eq!(data, [7; 512]);
    let mut used_index = [0; 2];
    memory.read(0x302, &mut used_index).unwrap();
    assert_eq!(u16::from_le_bytes(used_index), 1);
    assert_eq!(transport.read(0x060).unwrap(), 1);
}

#[test]
fn overlay_preserves_base_and_grows_sparsely() {
    let mut disk = BlockDevice::new(vec![7; SECTOR_BYTES], 4).unwrap();
    assert_eq!(disk.read_sector(0).unwrap()[0], 7);
    disk.write_sector(1, [9; SECTOR_BYTES]).unwrap();
    assert_eq!(disk.read_sector(1).unwrap()[0], 9);
    disk.resize(DiskResizePlan::from_slider(4, 8, 16, false).unwrap()).unwrap();
    assert_eq!(disk.read_sector(9_000_000).unwrap()[0], 0);
}

#[test]
fn parses_guest_chain_and_rejects_loop() {
    let mut mem = allocate(GuestPageSize::four_kib(), 4096);
    let mut first = [0; 16];
    first[..8].copy_from_slice(&0x100u64.to_le_bytes());
    first[8..12].copy_from_slice(&16u32.to_le_bytes());
    first[12..14].copy_from_slice(&1u16.to_le_bytes());
    first[14..16].copy_from_slice(&1u16.to_le_bytes());
    let mut second = first;
    second[12..14].copy_from_slice(&0u16.to_le_bytes());
    mem.write(0, &first).unwrap();
    mem.write(16, &second).unwrap();
    assert_eq!(parse_chain(&mem, 0, 0, 2).unwrap().len(), 2);
    mem.write(16, &first).unwrap();
    assert!(parse_chain(&mem, 0, 0, 2).is_err());
}

#[test]
fn block_window_reads_capacity_and_forwards_registers() {
    let disk = BlockDevice::new(vec![], 4).unwrap();
    let mut bus = Bus::with_block(disk);
    assert_eq!(bus.read32(0x0a00_0100).unwrap(), 8 * 1024 * 1024);
    assert_eq!(bus.read32(0x0a00_0104).unwrap(), 0);
    assert_eq!(bus.read32(0x0a00_0000).unwrap(), 0x7472_6976);
    bus.write32(0x0a00_0030, 0).unwrap();
    assert!(bus.handles(0x0a00_0000));
    assert!(!Bus::new().handles(0x0a00_0000));
    assert_eq!(bus.read32(0x0a00_0002).unwrap_err().message(), "StaticCpu unmapped MMIO read 0xa000002");
    let mut memory = allocate(GuestPageSize::four_kib(), 4096);
    assert_eq!(bus.service(&mut memory).unwrap(), 0);
}

#[test]
fn later_disjoint_writes_keep_earlier_bytes() {
    let mut memory = GuestMemory::allocate(GuestPageSize::four_kib(), 4096, 8192).unwrap();
    memory.write(4095, &[1, 2, 3]).unwrap();
    memory.write(4090, &[9, 9, 9, 9, 9]).unwrap();
    memory.write(4098, &[7, 7]).unwrap();
    let mut out = [0u8; 3];
    memory.read(4095, &mut out).unwrap();
    assert_eq!(out, [1, 2, 3]);
    let mut past = [5u8; 2];
    assert!(memory.read(8191, &mut past).is_err());
    assert_eq!(past, [5, 5]);
    assert_eq!(memory.len(), 8192);
}
