use wawona_relay::relay_core::{ArtifactClass, RelayKind, RelayPlatform, RelaySpec};
use wawona_relay::vm::exception::El1State;
use wawona_relay::vm::ios_cpu::{
    interpret_proof_elf, map_jit_write_exec_ok, movz, proof_mmu, start, subs_imm, Cpu,
    ExecutionBudget, FB_HEIGHT, FB_WIDTH, LOAD_BASE, MEM_SIZE, VIRTIO_MMIO_BASE,
};
use wawona_relay::vm::timer::{Gic, Timer};
use wawona_relay::vm::virtio_mmio::Transport;

fn cpu_at(pc: u64, vbar: u64) -> Cpu {
    Cpu {
        x: [0; 32],
        nzcv: 0,
        pc,
        mem: vec![0; MEM_SIZE],
        frame: None,
        mmu: proof_mmu().unwrap(),
        el1: El1State::new(vbar),
        timer: Timer::new(27),
        gic: Gic::new(),
        virtio: Transport::new(2, 0, 128),
    }
}

fn spec(kind: RelayKind, page: u32) -> RelaySpec {
    RelaySpec {
        kind,
        platform: RelayPlatform::Ios,
        artifact: ArtifactClass::ModeB,
        machine_id: None,
        image: None,
        memory_mb: None,
        guest_page_size: Some(page),
        guest: None,
        resources: None,
        ios_hv_host: None,
    }
}

#[test]
fn proof_elf_presents_bar() {
    let frame = interpret_proof_elf().expect("frame");
    assert_eq!(frame.len(), (FB_WIDTH * FB_HEIGHT * 4) as usize);
    assert_eq!(&frame[0..4], &[0x88, 0xB7, 0x52, 0xFF]);
    let body = (FB_WIDTH * 48 * 4) as usize;
    assert_eq!(&frame[body..body + 4], &[0x32, 0x43, 0x1B, 0xFF]);
}

#[test]
fn container_tint_differs_from_vm() {
    let vm_s = start(&spec(RelayKind::Vm, 4096), 16384, 1).expect("vm");
    let ctr_s = start(&spec(RelayKind::Container, 16384), 16384, 2).expect("container");
    assert_ne!(vm_s.frame[0], ctr_s.frame[0], "container B channel tint");
    assert_eq!(vm_s.frame.len(), ctr_s.frame.len());
    assert!(vm_s.wayland_endpoint.contains("page=4096"));
    assert!(ctr_s.wayland_endpoint.contains("page=16384"));
}

#[test]
fn session_names_follow_the_start_sequence() {
    let s = start(&spec(RelayKind::Vm, 4096), 4096, 7).unwrap();
    assert_eq!(s.id, "relay-static-cpu-7");
    assert_eq!(
        s.wayland_endpoint,
        "wayland-shm://relay-static-cpu-7?320x240&page=4096&waypipe=in-process&vsock=1"
    );
    let host = RelaySpec { guest_page_size: None, ..spec(RelayKind::Vm, 0) };
    assert!(start(&host, 16384, 8).unwrap().wayland_endpoint.contains("page=16384"));
    assert!(start(&spec(RelayKind::Vm, 8192), 4096, 9).is_err());
    assert!(!map_jit_write_exec_ok());
}

#[test]
fn condition_flags_do_not_clobber_x16() {
    let mut cpu = cpu_at(LOAD_BASE, 0);
    cpu.x[0] = 1;
    cpu.x[16] = 0xfeed_face_cafe_beef;
    cpu.mem[0..4].copy_from_slice(&subs_imm(31, 0, 1).to_le_bytes());
    cpu.step().expect("subs");
    assert_eq!(cpu.x[16], 0xfeed_face_cafe_beef);
    assert_eq!(cpu.nzcv & 0b0100, 0b0100);
    assert_eq!(cpu.read_u32(VIRTIO_MMIO_BASE + 0x008).unwrap(), 2);
}

#[test]
fn unmapped_fetch_enters_el1_instruction_abort() {
    let mut cpu = cpu_at(0x900000, 0x4000);
    assert!(cpu.step().is_err());
    assert_eq!(cpu.el1.elr_el1, 0x900000);
    assert_eq!(cpu.el1.esr_el1, 0x8600_0000);
    assert_eq!(cpu.pc, 0x4200);
}

#[test]
fn instruction_budget_contains_non_yielding_guest() {
    let mut cpu = cpu_at(LOAD_BASE, 0);
    cpu.mem[0..4].copy_from_slice(&movz(0, 1, 0).to_le_bytes());
    let error = cpu
        .run(ExecutionBudget {
            max_instructions: 1,
        })
        .unwrap_err();
    assert!(error.message().contains("instruction budget exhausted"));
    assert_eq!(error.message(), "Relay CPU instruction budget exhausted after 1 instructions");
}

#[test]
fn stores_outside_the_frame_buffer_take_a_data_abort() {
    let mut cpu = cpu_at(LOAD_BASE, 0x8000);
    // STR W1, [X0], #4 with X0 past the frame buffer.
    cpu.mem[0..4].copy_from_slice(&0xB800_4401u32.to_le_bytes());
    cpu.x[0] = 0x2_0000 + 320 * 240 * 4;
    let error = cpu.step().unwrap_err();
    assert_eq!(error.message(), "Relay CPU FB OOB");
    assert_eq!(cpu.el1.esr_el1, 0x9600_0000);
    assert_eq!(cpu.pc, 0x8200);
    let mut cpu = cpu_at(LOAD_BASE, 0);
    cpu.mem[0..4].copy_from_slice(&0x1234_5678u32.to_le_bytes());
    assert_eq!(
        cpu.step().unwrap_err().message(),
        "Relay CPU unimplemented insn 0x12345678 at 0x10000"
    );
}
