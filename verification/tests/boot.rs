use sha2::{Digest, Sha256};
use wawona_relay::relay_core::{
    GuestArtifact, GuestCompatibility, GuestManifest, GuestPageSize, RelayError,
};
use wawona_relay::vm::dtb::{build, FDT_MAGIC};
use wawona_relay::vm::guest::{
    load, prepare_linux_boot, validate_artifacts, verify_bytes, ArtifactDigest, Sha256Stream, DTB_ADDRESS,
    KERNEL_ADDRESS,
};
use wawona_relay::vm::linux_boot::{
    create_cpu, parse_image_header, prepare, ARM64_IMAGE_MAGIC, HEADER_BYTES,
};

fn digest(bytes: &[u8]) -> Vec<u8> {
    Sha256::digest(bytes).to_vec()
}

fn hex(bytes: &[u8]) -> String {
    bytes.iter().map(|b| format!("{b:02x}")).collect()
}

fn artifact(path: &str, bytes: &[u8], size: u64) -> GuestArtifact {
    GuestArtifact {
        path: path.into(),
        sha256: hex(&digest(bytes)),
        bytes: size,
    }
}

fn measured(bytes: &[u8]) -> Result<ArtifactDigest, RelayError> {
    Ok(ArtifactDigest {
        bytes: bytes.len() as u64,
        sha256: digest(bytes),
    })
}

fn manifest(page_size: u32, memory_bytes: u64, kernel: GuestArtifact, rootfs: GuestArtifact) -> GuestManifest {
    GuestManifest {
        version: GuestManifest::VERSION,
        page_size,
        memory_bytes,
        kernel,
        initrd: None,
        rootfs,
        command_line: String::new(),
        compatibility: GuestCompatibility::default(),
        signature: None,
    }
}

fn be32_at(bytes: &[u8], at: usize) -> u32 {
    u32::from_be_bytes(bytes[at..at + 4].try_into().unwrap())
}

fn contains(haystack: &[u8], needle: &[u8]) -> bool {
    haystack.windows(needle.len()).any(|window| window == needle)
}

#[test]
fn dtb_has_linux_boot_cpu_interrupt_and_virtio_nodes() {
    let dtb = build(0x20_0000, "console=hvc0", Some((0x10_0000, 0x18_0000))).unwrap();
    assert_eq!(&dtb[..4], &FDT_MAGIC.to_be_bytes());
    assert_eq!(u32::from_be_bytes(dtb[4..8].try_into().unwrap()) as usize, dtb.len());
    for expected in [
        b"console=hvc0".as_slice(),
        b"arm,arm-v8",
        b"arm,gic-v3",
        b"arm,armv8-timer",
        b"arm,pl011",
        b"virtio,mmio",
        b"linux,initrd-start",
    ] {
        assert!(dtb.windows(expected.len()).any(|window| window == expected));
    }
}

#[test]
fn dtb_rejects_initrd_outside_guest_memory() {
    assert!(build(0x20_0000, "", Some((0x10_0000, 0x30_0000))).is_err());
}

#[test]
fn dtb_rejects_empty_initrd_and_nul_bootargs() {
    let empty = build(0x20_0000, "", Some((0x10_0000, 0x10_0000))).unwrap_err();
    assert_eq!(empty.message(), "DTB initrd range is invalid");
    let nul = build(0x20_0000, "console=hvc0\0", None).unwrap_err();
    assert_eq!(nul.message(), "DTB bootargs contains NUL");
}

#[test]
fn dtb_header_locates_structure_and_strings() {
    let dtb = build(0x4000_0000, "quiet", None).unwrap();
    assert_eq!(be32_at(&dtb, 8), 56);
    let off_strings = be32_at(&dtb, 12) as usize;
    assert_eq!(be32_at(&dtb, 20), 17);
    assert_eq!(be32_at(&dtb, 24), 16);
    let strings_len = be32_at(&dtb, 32) as usize;
    let struct_len = be32_at(&dtb, 36) as usize;
    assert_eq!(off_strings, 56 + struct_len);
    assert_eq!(off_strings + strings_len, dtb.len());
    assert_eq!(&dtb[40..56], &[0u8; 16]);
    // The structure block opens the root node and ends with FDT_END.
    assert_eq!(be32_at(&dtb, 56), 1);
    assert_eq!(be32_at(&dtb, off_strings - 4), 9);
    assert!(dtb[off_strings..].starts_with(b"compatible\0model\0"));
    assert!(!contains(&dtb, b"linux,initrd-start"));
    // memory@0 reg cells carry the RAM size.
    assert!(contains(&dtb, &[0, 0, 0, 0, 0, 0, 0, 0, 0, 0, 0, 0, 0x40, 0, 0, 0]));
    assert_eq!(struct_len % 4, 0);
}

#[test]
fn verifies_artifact_bytes_in_either_hex_case() {
    let bytes = [1u8, 2, 3, 4];
    let mut entry = artifact("Image", &bytes, 4);
    assert!(verify_bytes("kernel", &entry, &bytes).is_ok());
    entry.sha256 = entry.sha256.to_uppercase();
    assert!(verify_bytes("kernel", &entry, &bytes).is_ok());
    let short = verify_bytes("kernel", &entry, &bytes[..3]).unwrap_err();
    assert_eq!(short.message(), "guest kernel size differs from manifest");
    let other = verify_bytes("kernel", &entry, &[4, 3, 2, 1]).unwrap_err();
    assert_eq!(other.message(), "guest kernel sha256 differs from manifest");
}

#[test]
fn loads_page_aligned_guest_artifacts() {
    let kernel = [1u8, 2, 3, 4];
    let rootfs = [5u8, 6, 7, 8];
    let manifest = manifest(
        16384,
        16384 * 16,
        artifact("Image", &kernel, 4),
        artifact("rootfs", &rootfs, 4),
    );
    let loaded = load(&manifest, Ok(kernel.to_vec()), None, Ok(rootfs.to_vec()), 4096).unwrap();
    assert_eq!(loaded.page_size, GuestPageSize::sixteen_kib());
    assert_eq!(loaded.memory.len(), 16384 * 16);
    assert_eq!(loaded.memory.page_size(), GuestPageSize::sixteen_kib());
    assert_eq!(loaded.kernel, [1, 2, 3, 4]);
    assert_eq!(loaded.rootfs, [5, 6, 7, 8]);
    assert_eq!(loaded.rootfs_path, "rootfs");
}

#[test]
fn rejects_artifact_size_drift_without_allocating_guest_memory() {
    let kernel = [1u8; 4];
    let rootfs = [2u8; 4];
    let manifest = manifest(
        4096,
        4096 * 16,
        artifact("Image", &kernel, 5),
        artifact("rootfs", &rootfs, 4),
    );
    let error = validate_artifacts(&manifest, measured(&kernel), measured(&rootfs), None).unwrap_err();
    assert_eq!(error.message(), "guest kernel size differs from manifest");
}

#[test]
fn rejects_artifact_hash_drift() {
    let kernel = [1u8; 4];
    let rootfs = [2u8; 4];
    let mut bad_kernel = artifact("Image", &kernel, 4);
    bad_kernel.sha256 = "0".repeat(64);
    let manifest = manifest(4096, 4096 * 16, bad_kernel, artifact("rootfs", &rootfs, 4));
    let error = validate_artifacts(&manifest, measured(&kernel), measured(&rootfs), None).unwrap_err();
    assert_eq!(error.message(), "guest kernel sha256 differs from manifest");
}

#[test]
fn validate_artifacts_checks_rootfs_then_initrd_and_passes_read_errors_on() {
    let kernel = [1u8; 4];
    let rootfs = [2u8; 4];
    let initrd = [3u8; 4];
    let mut manifest = manifest(
        4096,
        4096 * 16,
        artifact("Image", &kernel, 4),
        artifact("rootfs", &rootfs, 4),
    );
    manifest.initrd = Some(artifact("initrd", &initrd, 4));
    assert_eq!(
        validate_artifacts(&manifest, measured(&kernel), measured(&rootfs), Some(measured(&initrd)))
            .unwrap(),
        GuestPageSize::four_kib()
    );
    let missing = Err(RelayError::Failed("cannot read guest rootfs: gone".into()));
    let error = validate_artifacts(&manifest, measured(&kernel), missing, Some(measured(&[9u8; 4])))
        .unwrap_err();
    assert_eq!(error.message(), "cannot read guest rootfs: gone");
    let error = validate_artifacts(&manifest, measured(&kernel), measured(&rootfs), Some(measured(&[9u8; 4])))
        .unwrap_err();
    assert_eq!(error.message(), "guest initrd sha256 differs from manifest");
}

#[test]
fn stages_linux_kernel_and_initrd_without_executing_them() {
    let kernel = [1u8, 2, 3, 4];
    let initrd = [5u8, 6, 7, 8];
    let rootfs = [9u8; 4];
    let mut manifest = manifest(
        4096,
        2 * 1024 * 1024,
        artifact("Image", &kernel, 4),
        artifact("rootfs", &rootfs, 4),
    );
    manifest.initrd = Some(artifact("initrd", &initrd, 4));
    manifest.command_line = "console=hvc0".into();
    let (guest, state) = prepare_linux_boot(
        &manifest,
        Ok(kernel.to_vec()),
        Some(Ok(initrd.to_vec())),
        measured(&rootfs),
        4096,
    )
    .unwrap();
    assert_eq!(state.entry_pc, KERNEL_ADDRESS);
    assert_eq!(state.dtb_address, DTB_ADDRESS);
    assert_eq!(state.initrd_address, Some(KERNEL_ADDRESS + 4096));
    assert_eq!(state.command_line, "console=hvc0");
    assert!(state.dtb_bytes > 40);
    let mut loaded_kernel = [0; 4];
    guest.memory.read(KERNEL_ADDRESS, &mut loaded_kernel).unwrap();
    assert_eq!(loaded_kernel, [1, 2, 3, 4]);
    let mut loaded_initrd = [0; 4];
    guest.memory.read(KERNEL_ADDRESS + 4096, &mut loaded_initrd).unwrap();
    assert_eq!(loaded_initrd, [5, 6, 7, 8]);
    let mut magic = [0; 4];
    guest.memory.read(DTB_ADDRESS, &mut magic).unwrap();
    assert_eq!(magic, FDT_MAGIC.to_be_bytes());
    assert!(guest.rootfs.is_empty(), "rootfs is virtio-block backed");
}

#[test]
fn staging_refuses_a_dtb_that_reaches_the_kernel() {
    let kernel = [1u8; 4];
    let rootfs = [2u8; 4];
    let mut manifest = manifest(
        4096,
        2 * 1024 * 1024,
        artifact("Image", &kernel, 4),
        artifact("rootfs", &rootfs, 4),
    );
    manifest.command_line = "x".repeat(0x40000);
    let error = prepare_linux_boot(&manifest, Ok(kernel.to_vec()), None, measured(&rootfs), 4096)
        .err()
        .unwrap();
    assert_eq!(error.message(), "Relay DTB and kernel layout overlap");
}

#[test]
fn staging_refuses_a_kernel_beyond_guest_ram() {
    let kernel = vec![1u8; 0x10_0000];
    let rootfs = [2u8; 4];
    let manifest = manifest(
        4096,
        0x10_0000,
        artifact("Image", &kernel, kernel.len() as u64),
        artifact("rootfs", &rootfs, 4),
    );
    let error = prepare_linux_boot(&manifest, Ok(kernel.clone()), None, measured(&rootfs), 4096)
        .err()
        .unwrap();
    assert_eq!(
        error.message(),
        "guest physical memory access out of range address=0x80000 len=1048576 memory=0x100000"
    );
}

fn image(first: u32) -> Vec<u8> {
    let mut bytes = vec![0u8; HEADER_BYTES];
    bytes[..4].copy_from_slice(&first.to_le_bytes());
    bytes[8..16].copy_from_slice(&0x80000u64.to_le_bytes());
    bytes[16..24].copy_from_slice(&0x200000u64.to_le_bytes());
    bytes[0x38..0x3c].copy_from_slice(&ARM64_IMAGE_MAGIC.to_le_bytes());
    bytes
}

#[test]
fn parses_arm64_image_header() {
    let header = parse_image_header(&image(0x1400_0008)).unwrap();
    assert_eq!(header.first_instruction, 0x1400_0008);
    assert_eq!(header.text_offset, 0x80000);
    assert_eq!(header.image_size, 0x200000);
    assert_eq!(header.flags, 0);
}

#[test]
fn image_header_refusals_name_the_cause() {
    let short = parse_image_header(&[0u8; 10]).unwrap_err();
    assert_eq!(short.message(), "guest kernel is smaller than ARM64 Image header");
    let mut bytes = image(1);
    bytes[0x38] = 0x12;
    let bad = parse_image_header(&bytes).unwrap_err();
    assert_eq!(bad.message(), "guest kernel is not an ARM64 Image (magic 0x644d5212)");
}

#[test]
fn boot_stops_at_the_first_unimplemented_kernel_word() {
    let kernel = image(0xffff_ffff);
    let rootfs = [2u8; 4];
    let mut manifest = manifest(
        4096,
        2 * 1024 * 1024,
        artifact("Image", &kernel, kernel.len() as u64),
        artifact("rootfs", &rootfs, 4),
    );
    manifest.command_line = "console=hvc0".into();
    let error = prepare(&manifest, Ok(kernel.clone()), None, measured(&rootfs), rootfs.to_vec(), 4096)
        .unwrap_err();
    assert_eq!(
        error.message(),
        "StaticCpu EL1 first unimplemented insn pc=0x80000 word=0xffffffff"
    );
    let (guest, state) =
        prepare_linux_boot(&manifest, Ok(kernel.clone()), None, measured(&rootfs), 4096).unwrap();
    let (cpu, _) = create_cpu(guest, state, rootfs.to_vec()).unwrap();
    assert_eq!(cpu.pc, KERNEL_ADDRESS);
    assert_eq!(cpu.x(0), DTB_ADDRESS);
}

#[test]
fn create_cpu_refuses_an_empty_entry_instruction() {
    let kernel = image(0);
    let rootfs = [2u8; 4];
    let manifest = manifest(
        4096,
        2 * 1024 * 1024,
        artifact("Image", &kernel, kernel.len() as u64),
        artifact("rootfs", &rootfs, 4),
    );
    let (guest, state) =
        prepare_linux_boot(&manifest, Ok(kernel.clone()), None, measured(&rootfs), 4096).unwrap();
    let error = create_cpu(guest, state, rootfs.to_vec()).err().unwrap();
    assert_eq!(error.message(), "ARM64 Image has an empty entry instruction");
}

#[test]
fn streamed_measurement_matches_one_digest() {
    let data: Vec<u8> = (0..5000u32).map(|i| (i % 251) as u8).collect();
    let mut stream = Sha256Stream::new();
    stream.update(&data[..1234]);
    stream.update(&data[1234..]);
    let measured = stream.finish();
    assert_eq!(measured.bytes, 5000);
    assert_eq!(measured.sha256, digest(&data));
    let empty = Sha256Stream::new().finish();
    assert_eq!(empty.bytes, 0);
    assert_eq!(empty.sha256, digest(b""));
}
