//! The static AArch64 machine: guest memory and page geometry, stage-1
//! translation, exception state, system registers, timer and devices.
pub mod exception;
pub mod guest;
pub mod mmu;
pub mod page_translate;
pub mod sysregs;
pub mod timer;
pub mod vsock;
pub mod virtio_console;
pub mod virtio_mmio;
pub mod virtio_block;
pub mod bus;
pub mod cpu_bits;
pub mod cpu;
pub mod ios_cpu;
pub mod dtb;
pub mod linux_boot;
pub mod launch;
pub mod vz;
