use wawona_relay::relay_core::GuestPageSize;
use wawona_relay::vm::bus::PL011_BASE;
use wawona_relay::vm::cpu::StaticCpu;
use wawona_relay::vm::guest::GuestMemory;

fn memory() -> GuestMemory {
    GuestMemory::allocate(GuestPageSize::four_kib(), 4096, 4096).unwrap()
}

#[test]
fn follows_image_branch_before_reporting_unknown_word() {
    let mut memory = memory();
    memory.write(0, &0xfa40_5a4du32.to_le_bytes()).unwrap();
    memory.write(4, &0x1400_0001u32.to_le_bytes()).unwrap();
    memory.write(8, &0xd503_201fu32.to_le_bytes()).unwrap();
    memory.write(12, &0xffff_ffffu32.to_le_bytes()).unwrap();
    let mut cpu = StaticCpu::new(memory, 0).unwrap();
    cpu.step().unwrap();
    assert_eq!(cpu.pc, 4);
    cpu.step().unwrap();
    assert_eq!(cpu.pc, 8);
    cpu.step().unwrap();
    assert!(cpu.step().unwrap_err().message().contains("pc=0xc word=0xffffffff"));
}

#[test]
fn stores_and_loads_ram_and_pl011() {
    let mut memory = memory();
    memory.write(0, &0xf900_0400u32.to_le_bytes()).unwrap();
    memory.write(4, &0xf940_0402u32.to_le_bytes()).unwrap();
    memory.write(8, &0xb900_0003u32.to_le_bytes()).unwrap();
    let mut cpu = StaticCpu::new(memory, 0).unwrap();
    cpu.set_x(0, 0x100);
    cpu.set_x(1, 0xfeed_face);
    cpu.set_x(3, b'R' as u64);
    cpu.memory.write(0, &0xf900_0001u32.to_le_bytes()).unwrap();
    cpu.step().unwrap();
    cpu.memory.write(4, &0xf940_0002u32.to_le_bytes()).unwrap();
    cpu.step().unwrap();
    assert_eq!(cpu.x(2), 0xfeed_face);
    cpu.set_x(0, PL011_BASE);
    cpu.pc = 8;
    cpu.step().unwrap();
    assert_eq!(cpu.bus.console(), b"R");
}

#[test]
fn loads_bytes_with_unsigned_offsets() {
    let mut memory = memory();
    memory.write(0, &0x3973_0000u32.to_le_bytes()).unwrap();
    memory.write(3264, &[0xa5]).unwrap();
    let mut cpu = StaticCpu::new(memory, 0).unwrap();
    cpu.step().unwrap();
    assert_eq!(cpu.x(0), 0xa5);
}

#[test]
fn post_indexed_byte_load_updates_pointer() {
    let mut memory = memory();
    memory.write(0, &0x3840_1406u32.to_le_bytes()).unwrap();
    memory.write(0x100, &[0xa5]).unwrap();
    let mut cpu = StaticCpu::new(memory, 0).unwrap();
    cpu.set_x(0, 0x100);
    cpu.step().unwrap();
    assert_eq!(cpu.x(6), 0xa5);
    assert_eq!(cpu.x(0), 0x101);
}

#[test]
fn register_offset_byte_load_sign_extends_index() {
    let mut memory = memory();
    memory.write(0, &0x3878_caa0u32.to_le_bytes()).unwrap();
    memory.write(0xff, &[0x5a]).unwrap();
    let mut cpu = StaticCpu::new(memory, 0).unwrap();
    cpu.set_x(21, 0x100);
    cpu.set_x(24, u32::MAX as u64);
    cpu.step().unwrap();
    assert_eq!(cpu.x(0), 0x5a);
}

#[test]
fn compare_flags_drive_conditional_branch() {
    let mut memory = memory();
    memory.write(0, &0xf100_041fu32.to_le_bytes()).unwrap();
    memory.write(4, &0x5400_0040u32.to_le_bytes()).unwrap();
    memory.write(12, &0xffff_ffffu32.to_le_bytes()).unwrap();
    let mut cpu = StaticCpu::new(memory, 0).unwrap();
    cpu.set_x(0, 1);
    cpu.step().unwrap();
    cpu.step().unwrap();
    assert_eq!(cpu.pc, 12);
    assert!(cpu.step().unwrap_err().message().contains("pc=0xc"));
}

#[test]
fn conditional_compare_uses_encoded_or_computed_flags() {
    let mut memory = memory();
    memory.write(0, &0xfa4f_1824u32.to_le_bytes()).unwrap();
    let mut cpu = StaticCpu::new(memory, 0).unwrap();
    cpu.nzcv = 4;
    cpu.step().unwrap();
    assert_eq!(cpu.nzcv, 4);
    cpu.pc = 0;
    cpu.nzcv = 0;
    cpu.set_x(1, 15);
    cpu.step().unwrap();
    assert_eq!(cpu.nzcv & 4, 4);
}

#[test]
fn tst_logical_immediate_sets_linux_boot_condition_flags() {
    let mut memory = memory();
    memory.write(0, &0xf27e_027fu32.to_le_bytes()).unwrap();
    memory.write(4, &0x9a93_03f3u32.to_le_bytes()).unwrap();
    let mut cpu = StaticCpu::new(memory, 0).unwrap();
    cpu.set_x(19, 4);
    cpu.step().unwrap();
    assert_eq!(cpu.nzcv & 4, 0);
    cpu.step().unwrap();
    assert_eq!(cpu.x(19), 4);
    cpu.pc = 0;
    cpu.set_x(19, 0);
    cpu.step().unwrap();
    assert_eq!(cpu.nzcv & 4, 4);
    cpu.step().unwrap();
    assert_eq!(cpu.x(19), 0);
}

#[test]
fn ubfx_extracts_linux_cache_geometry_field() {
    let mut memory = memory();
    memory.write(0, &0xd350_4c63u32.to_le_bytes()).unwrap();
    memory.write(4, &0x9ac3_2042u32.to_le_bytes()).unwrap();
    let mut cpu = StaticCpu::new(memory, 0).unwrap();
    cpu.set_x(3, 0x000a_0000);
    cpu.step().unwrap();
    assert_eq!(cpu.x(3), 0xa);
    cpu.set_x(2, 1);
    cpu.set_x(3, 6);
    cpu.step().unwrap();
    assert_eq!(cpu.x(2), 64);
}

#[test]
fn bic_clears_linux_cache_alignment_mask() {
    let mut memory = memory();
    memory.write(0, &0x8a23_0021u32.to_le_bytes()).unwrap();
    let mut cpu = StaticCpu::new(memory, 0).unwrap();
    cpu.set_x(1, 0x123f);
    cpu.set_x(3, 0x3f);
    cpu.step().unwrap();
    assert_eq!(cpu.x(1), 0x1200);
}

#[test]
fn cache_loop_add_compare_and_maintenance_execute() {
    let mut memory = memory();
    for (offset, instruction) in [
        (0, 0xd50b_7e20_u32),
        (4, 0xd508_7620_u32),
        (8, 0x8b02_0000_u32),
        (12, 0xeb01_001f_u32),
        (16, 0xd508_871f_u32),
    ] {
        memory.write(offset, &instruction.to_le_bytes()).unwrap();
    }
    let mut cpu = StaticCpu::new(memory, 0).unwrap();
    cpu.set_x(0, 0x1000);
    cpu.set_x(1, 0x1040);
    cpu.set_x(2, 0x40);
    cpu.step().unwrap();
    cpu.step().unwrap();
    cpu.step().unwrap();
    assert_eq!(cpu.x(0), 0x1040);
    cpu.step().unwrap();
    assert_eq!(cpu.nzcv & 4, 4);
    cpu.step().unwrap();
    assert_eq!(cpu.pc, 20);
}

#[test]
fn cache_zero_clears_a_64_byte_block() {
    let mut memory = memory();
    memory.write(0, &0xd50b_7428u32.to_le_bytes()).unwrap();
    memory.write(0x100, &[0xff; 64]).unwrap();
    let mut cpu = StaticCpu::new(memory, 0).unwrap();
    cpu.set_x(8, 0x123);
    cpu.step().unwrap();
    let mut cleared = [1; 64];
    cpu.memory.read(0x100, &mut cleared).unwrap();
    assert_eq!(cleared, [0; 64]);
}

#[test]
fn multiply_alias_executes_in_32_bit_linux_path() {
    let mut memory = memory();
    memory.write(0, &0x1b02_7ca2u32.to_le_bytes()).unwrap();
    let mut cpu = StaticCpu::new(memory, 0).unwrap();
    cpu.set_x(2, 7);
    cpu.set_x(5, 6);
    cpu.step().unwrap();
    assert_eq!(cpu.x(2), 42);
}

#[test]
fn reverse_bytes_executes_in_page_table_path() {
    let mut memory = memory();
    memory.write(0, &0xdac0_0c84u32.to_le_bytes()).unwrap();
    let mut cpu = StaticCpu::new(memory, 0).unwrap();
    cpu.set_x(4, 0x0123_4567_89ab_cdef);
    cpu.step().unwrap();
    assert_eq!(cpu.x(4), 0xefcd_ab89_6745_2301);
}

#[test]
fn add_extended_signs_a_32_bit_kernel_index() {
    let mut memory = memory();
    memory.write(0, &0x8b35_c275u32.to_le_bytes()).unwrap();
    let mut cpu = StaticCpu::new(memory, 0).unwrap();
    cpu.set_x(19, 100);
    cpu.set_x(21, u32::MAX as u64);
    cpu.step().unwrap();
    assert_eq!(cpu.x(21), 99);
}

#[test]
fn mrs_reads_virtual_counter_frequency() {
    let mut memory = memory();
    memory.write(0, &0xd53b_e000u32.to_le_bytes()).unwrap();
    let mut cpu = StaticCpu::new(memory, 0).unwrap();
    cpu.step().unwrap();
    assert_eq!(cpu.x(0), 24_000_000);
}

#[test]
fn linux_el1_exception_return_uses_programmed_link() {
    let mut memory = memory();
    memory.write(0, &0xd518_4000u32.to_le_bytes()).unwrap();
    memory.write(4, &0xd518_403eu32.to_le_bytes()).unwrap();
    memory.write(8, &0xd69f_03e0u32.to_le_bytes()).unwrap();
    let mut cpu = StaticCpu::new(memory, 0).unwrap();
    cpu.set_x(0, 0x3c5);
    cpu.set_x(30, 0x100);
    cpu.step().unwrap();
    cpu.step().unwrap();
    cpu.step().unwrap();
    assert_eq!(cpu.sysregs.spsr_el1, 0x3c5);
    assert_eq!(cpu.pc, 0x100);
}

#[test]
fn linux_entry_stack_pairs_preserve_sp_and_registers() {
    let mut memory = memory();
    for (offset, instruction) in [
        (0, 0x9100_003f_u32),
        (4, 0xa9bf_07f5),
        (8, 0xa8c1_07f5),
    ] {
        memory.write(offset, &instruction.to_le_bytes()).unwrap();
    }
    let mut cpu = StaticCpu::new(memory, 0).unwrap();
    cpu.set_x(1, 0x800);
    cpu.set_x(21, 0xfeed_face_cafe_beef);
    cpu.step().unwrap();
    assert_eq!(cpu.sp, 0x800);
    cpu.step().unwrap();
    assert_eq!(cpu.sp, 0x7f0);
    cpu.set_x(1, 0);
    cpu.set_x(21, 0);
    cpu.step().unwrap();
    assert_eq!(cpu.sp, 0x800);
    assert_eq!(cpu.x(1), 0x800);
    assert_eq!(cpu.x(21), 0xfeed_face_cafe_beef);
}

#[test]
fn linux_entry_bit_branches_and_literal_load_execute() {
    let mut memory = memory();
    memory.write(0, &0x3600_00b3_u32.to_le_bytes()).unwrap();
    memory.write(20, &0x5800_00a2_u32.to_le_bytes()).unwrap();
    memory.write(40, &0x0123_4567_89ab_cdef_u64.to_le_bytes()).unwrap();
    let mut cpu = StaticCpu::new(memory, 0).unwrap();
    cpu.set_x(19, 0);
    cpu.step().unwrap();
    assert_eq!(cpu.pc, 20);
    cpu.step().unwrap();
    assert_eq!(cpu.x(2), 0x0123_4567_89ab_cdef);
}

#[test]
fn pc_relative_addresses_keep_immlo_as_low_bits() {
    let mut memory = memory();
    memory.write(0, &0x1000_0803_u32.to_le_bytes()).unwrap();
    memory.write(4, &0xf000_0004_u32.to_le_bytes()).unwrap();
    let mut cpu = StaticCpu::new(memory, 0).unwrap();
    cpu.step().unwrap();
    assert_eq!(cpu.x(3), 0x100);
    cpu.step().unwrap();
    assert_eq!(cpu.x(4), 0x3000);
}

#[test]
fn indirect_call_and_return_preserve_link_register() {
    let mut memory = memory();
    memory.write(0, &0xd63f_0040_u32.to_le_bytes()).unwrap();
    memory.write(16, &0xd65f_03c0_u32.to_le_bytes()).unwrap();
    let mut cpu = StaticCpu::new(memory, 0).unwrap();
    cpu.set_x(2, 16);
    cpu.step().unwrap();
    assert_eq!(cpu.pc, 16);
    assert_eq!(cpu.x(30), 4);
    cpu.step().unwrap();
    assert_eq!(cpu.pc, 4);
}
