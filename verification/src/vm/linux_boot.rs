//! ARM64 Linux Image validation and the hand-off to the static CPU.
//!
//! This is the point at which a verified artifact becomes executable guest
//! data. It never turns a staged guest into a boot result: until the EL1
//! instruction set runs an Image to completion, it reports the first stop.
use crate::relay_core::{error_text, failure, only_failed, RelayError};
use crate::runtime::{load_le, read_le};
use crate::vm::bus::Bus;
use crate::vm::cpu::{push_word, word_text, StaticCpu};
use crate::vm::guest::{
    boot_verdict, fresh_ram, initrd_bytes, prepare_linux_boot, read_bytes, staging, ArtifactDigest,
    LinuxBootState, LoadedGuest,
};
use crate::relay_core::GuestManifest;
use crate::vm::virtio_block::{le32, BlockDevice};
use vstd::prelude::*;

verus! {

/// ARM64 Image magic at offset 0x38, little-endian in the file.
pub const ARM64_IMAGE_MAGIC: u32 = 0x644d_5241;

pub const HEADER_BYTES: usize = 0x40;

/// The fields of an ARM64 Image header that the boot path reads.
#[derive(Debug, Clone, Copy, PartialEq, Eq)]
pub struct ImageHeader {
    pub first_instruction: u32,
    pub text_offset: u64,
    pub image_size: u64,
    pub flags: u64,
}

/// What `parse_image_header` answers for an Image that starts with `bytes`.
pub open spec fn image_header(bytes: Seq<u8>) -> Result<ImageHeader, Seq<char>> {
    if bytes.len() < HEADER_BYTES {
        Err("guest kernel is smaller than ARM64 Image header"@)
    } else if le32(bytes, 0x38) != ARM64_IMAGE_MAGIC {
        Err("guest kernel is not an ARM64 Image (magic "@ + word_text(le32(bytes, 0x38)) + ")"@)
    } else {
        Ok(
            ImageHeader {
                first_instruction: le32(bytes, 0),
                text_offset: load_le(bytes, 8),
                image_size: load_le(bytes, 16),
                flags: load_le(bytes, 24),
            },
        )
    }
}

fn read_le32(bytes: &[u8], start: usize) -> (r: u32)
    requires
        start + 4 <= bytes@.len(),
    ensures
        r == le32(bytes@, start as int),
{
    (bytes[start] as u32) | ((bytes[start + 1] as u32) << 8u32) | ((bytes[start + 2] as u32)
        << 16u32) | ((bytes[start + 3] as u32) << 24u32)
}

/// Decode the header at the start of an ARM64 Image.
pub fn parse_image_header(bytes: &[u8]) -> (r: Result<ImageHeader, RelayError>)
    ensures
        only_failed(r),
        failure(r) == image_header(bytes@),
{
    if bytes.len() < HEADER_BYTES {
        return Err(
            RelayError::Failed(String::from_str("guest kernel is smaller than ARM64 Image header")),
        );
    }
    let magic = read_le32(bytes, 0x38);
    if magic != ARM64_IMAGE_MAGIC {
        let mut message = String::from_str("guest kernel is not an ARM64 Image (magic ");
        push_word(&mut message, magic);
        message.append(")");
        return Err(RelayError::Failed(message));
    }
    Ok(
        ImageHeader {
            first_instruction: read_le32(bytes, 0),
            text_offset: read_le(bytes, 8),
            image_size: read_le(bytes, 16),
            flags: read_le(bytes, 24),
        },
    )
}

/// Why a staged guest cannot be put on a CPU, if it cannot.
pub open spec fn cpu_refusal(kernel: Seq<u8>, rootfs_len: nat) -> Option<Seq<char>> {
    if image_header(kernel) is Err {
        Some(image_header(kernel)->Err_0)
    } else if image_header(kernel)->Ok_0.first_instruction == 0 {
        Some("ARM64 Image has an empty entry instruction"@)
    } else if rootfs_len > 4 * 0x4000_0000 {
        Some("base image exceeds virtual disk capacity"@)
    } else {
        None
    }
}

/// Stage a prepared guest on a static CPU: the Image header must name an entry
/// instruction, the rootfs backs a 4 GiB virtio-block disk, and `x0` holds the
/// DTB address as the ARM64 Linux boot protocol asks.
pub fn create_cpu(guest: LoadedGuest, boot: LinuxBootState, rootfs: Vec<u8>) -> (r: Result<
    (StaticCpu, LinuxBootState),
    RelayError,
>)
    ensures
        only_failed(r),
        r is Ok <==> cpu_refusal(guest.kernel@, rootfs@.len()) is None,
        r is Err ==> error_text(r->Err_0) == cpu_refusal(guest.kernel@, rootfs@.len())->Some_0,
        r matches Ok((cpu, state)) ==> state == boot && cpu.pc == boot.entry_pc && cpu.sp == 0,
        r matches Ok((cpu, state)) ==> cpu.x@ == Seq::new(31, |i: int| 0u64).update(
            0,
            boot.dtb_address,
        ),
        r matches Ok((cpu, state)) ==> cpu.memory@ == guest.memory@ && cpu.memory.size()
            == guest.memory.size(),
        r matches Ok((cpu, state)) ==> cpu.bus.wf() && (cpu.bus.disk() matches Some(d)
            && d.base_image() == rootfs@),
{
    let header = match parse_image_header(guest.kernel.as_slice()) {
        Ok(h) => h,
        Err(e) => {
            return Err(e);
        },
    };
    if header.first_instruction == 0 {
        return Err(
            RelayError::Failed(String::from_str("ARM64 Image has an empty entry instruction")),
        );
    }
    let block = match BlockDevice::new(rootfs, 4) {
        Ok(b) => b,
        Err(e) => {
            return Err(e);
        },
    };
    let mut cpu = match StaticCpu::new(guest.memory, boot.entry_pc) {
        Ok(c) => c,
        Err(e) => {
            return Err(e);
        },
    };
    cpu.bus = Bus::with_block(block);
    cpu.set_x(0, boot.dtb_address);
    Ok((cpu, boot))
}

/// Instructions a boot attempt may run before it is reported as stopped.
pub const BOOT_BUDGET: u64 = 1_000_000;

/// Verify and stage the guest, put it on a static CPU and run it. A boot that
/// neither faults nor finishes within the budget is reported as stopped too,
/// so the answer is always the first stop: a staging refusal or the run's
/// first fault. `initrd` is the initrd as read exactly when the manifest
/// names one; `rootfs_base` is the rootfs as read, which backs virtio-block.
pub fn prepare(
    manifest: &GuestManifest,
    kernel: Result<Vec<u8>, RelayError>,
    initrd: Option<Result<Vec<u8>, RelayError>>,
    rootfs: Result<ArtifactDigest, RelayError>,
    rootfs_base: Vec<u8>,
    host_page_bytes: u32,
) -> (r: Result<LinuxBootState, RelayError>)
    requires
        manifest.initrd is Some <==> initrd is Some,
    ensures
        r is Err,
        boot_verdict(*manifest, kernel, initrd, rootfs, host_page_bytes) is Err ==> error_text(
            r->Err_0,
        ) == boot_verdict(*manifest, kernel, initrd, rootfs, host_page_bytes)->Err_0,
        boot_verdict(*manifest, kernel, initrd, rootfs, host_page_bytes) is Ok ==> match staging(
            fresh_ram(*manifest, host_page_bytes),
            read_bytes(kernel),
            initrd_bytes(initrd),
            manifest.page_size as u64,
            manifest.memory_bytes,
            manifest.command_line@,
        ) {
            Err(t) => error_text(r->Err_0) == t,
            Ok(_) => cpu_refusal(read_bytes(kernel), rootfs_base@.len()) is Some ==> error_text(
                r->Err_0,
            ) == cpu_refusal(read_bytes(kernel), rootfs_base@.len())->Some_0,
        },
{
    let (guest, boot) = match prepare_linux_boot(manifest, kernel, initrd, rootfs, host_page_bytes) {
        Ok(staged) => staged,
        Err(e) => {
            return Err(e);
        },
    };
    let (mut cpu, state) = match create_cpu(guest, boot, rootfs_base) {
        Ok(ready) => ready,
        Err(e) => {
            return Err(e);
        },
    };
    match cpu.run(BOOT_BUDGET) {
        Ok(()) => Ok(state),
        Err(e) => Err(e),
    }
}

} // verus!
