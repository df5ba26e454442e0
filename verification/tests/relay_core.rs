use ed25519_dalek::{Signer, SigningKey};
use wawona_relay::relay_core::ios_hv::{IosHvHost, OsVersion};
use wawona_relay::relay_core::{
    resolve_backend, ArtifactClass, DiskResizePlan, GuestArtifact, GuestCompatibility,
    GuestManifest, GuestManifestSignature, GuestPageSize, HostPageSize, RelayBackend, RelayError,
    RelayKind, RelayMachineProfile, RelayPlatform, RelaySpec, TrustedKeys,
};

fn spec(kind: RelayKind, platform: RelayPlatform, artifact: ArtifactClass) -> RelaySpec {
    RelaySpec {
        kind,
        platform,
        artifact,
        machine_id: None,
        image: None,
        memory_mb: None,
        guest_page_size: None,
        guest: None,
        resources: None,
        ios_hv_host: None,
    }
}

fn hex(bytes: &[u8]) -> String {
    bytes.iter().map(|byte| format!("{byte:02x}")).collect()
}

fn manifest(memory_bytes: u64) -> GuestManifest {
    let artifact = GuestArtifact {
        path: "nixos/Image".into(),
        sha256: "a".repeat(64),
        bytes: 4096,
    };
    GuestManifest {
        version: GuestManifest::VERSION,
        page_size: 4096,
        memory_bytes,
        kernel: artifact.clone(),
        initrd: None,
        rootfs: artifact,
        command_line: "console=hvc0".into(),
        compatibility: GuestCompatibility::default(),
        signature: None,
    }
}

#[test]
fn macos_vm_is_vz() {
    let b = resolve_backend(&spec(RelayKind::Vm, RelayPlatform::Macos, ArtifactClass::ModeA)).unwrap();
    assert_eq!(b, RelayBackend::Vz);
    assert!(!b.is_qemu());
}

#[test]
fn linux_vm_is_kvm() {
    let b = resolve_backend(&spec(RelayKind::Vm, RelayPlatform::Linux, ArtifactClass::ModeA)).unwrap();
    assert_eq!(b, RelayBackend::KvmCloudHypervisor);
}

#[test]
fn container_uses_same_vm_backend() {
    let vm = resolve_backend(&spec(RelayKind::Vm, RelayPlatform::Macos, ArtifactClass::ModeA)).unwrap();
    let c = resolve_backend(&spec(
        RelayKind::Container,
        RelayPlatform::Macos,
        ArtifactClass::ModeA,
    ))
    .unwrap();
    assert_eq!(vm, c);
}

#[test]
fn watch_vm_forbidden() {
    assert!(matches!(
        resolve_backend(&spec(RelayKind::Vm, RelayPlatform::Watchos, ArtifactClass::ModeA)),
        Err(RelayError::Forbidden(_))
    ));
}

#[test]
fn ios_mode_a_vm_is_static_cpu() {
    let b = resolve_backend(&spec(RelayKind::Vm, RelayPlatform::Ios, ArtifactClass::ModeA)).unwrap();
    assert_eq!(b, RelayBackend::StaticCpu);
    assert!(!b.is_qemu());
}

#[test]
fn ios_mode_b_vm_stays_static_without_host_facts() {
    let b = resolve_backend(&spec(RelayKind::Vm, RelayPlatform::Ios, ArtifactClass::ModeB)).unwrap();
    assert_eq!(b, RelayBackend::StaticCpu);
    assert!(!b.is_qemu());
}

#[test]
fn ios_mode_b_window_device_selects_ios_hv() {
    let mut s = spec(RelayKind::Vm, RelayPlatform::Ios, ArtifactClass::ModeB);
    s.ios_hv_host = Some(IosHvHost::iphone_14_pro_16_3_1());
    let b = resolve_backend(&s).unwrap();
    assert_eq!(b, RelayBackend::IosHv);
    assert!(!b.is_qemu());
}

#[test]
fn ios_mode_b_container_uses_same_hv_backend() {
    let mut vm = spec(RelayKind::Vm, RelayPlatform::Ipados, ArtifactClass::ModeB);
    vm.ios_hv_host = Some(IosHvHost::iphone_14_pro_16_3_1());
    let mut c = spec(RelayKind::Container, RelayPlatform::Ipados, ArtifactClass::ModeB);
    c.ios_hv_host = vm.ios_hv_host.clone();
    assert_eq!(resolve_backend(&vm).unwrap(), RelayBackend::IosHv);
    assert_eq!(resolve_backend(&c).unwrap(), RelayBackend::IosHv);
}

#[test]
fn ios_mode_a_never_selects_ios_hv_on_window_device() {
    let mut s = spec(RelayKind::Vm, RelayPlatform::Ios, ArtifactClass::ModeA);
    s.ios_hv_host = Some(IosHvHost::iphone_14_pro_16_3_1());
    assert_eq!(resolve_backend(&s).unwrap(), RelayBackend::StaticCpu);
}

#[test]
fn ios_mode_b_16_4_stays_static() {
    let mut s = spec(RelayKind::Vm, RelayPlatform::Ios, ArtifactClass::ModeB);
    s.ios_hv_host = Some(IosHvHost {
        os: OsVersion::new(16, 4, 0),
        hw_machine: "iPhone15,2".into(),
        kernel_hv: Some(true),
        has_private_hypervisor_entitlement: Some(true),
    });
    assert_eq!(resolve_backend(&s).unwrap(), RelayBackend::StaticCpu);
}

#[test]
fn ios_mode_b_wasm_is_pulley() {
    let b = resolve_backend(&spec(RelayKind::Wasm, RelayPlatform::Ios, ArtifactClass::ModeB)).unwrap();
    assert_eq!(b, RelayBackend::WasmPulley);
}

#[test]
fn ios_mode_b_wasm_stays_pulley_on_hv_window_device() {
    let mut s = spec(RelayKind::Wasm, RelayPlatform::Ios, ArtifactClass::ModeB);
    s.ios_hv_host = Some(IosHvHost::iphone_14_pro_16_3_1());
    assert_eq!(resolve_backend(&s).unwrap(), RelayBackend::WasmPulley);
}

#[test]
fn android_mode_a_wasm_is_pulley() {
    let b = resolve_backend(&spec(RelayKind::Wasm, RelayPlatform::Android, ArtifactClass::ModeA)).unwrap();
    assert_eq!(b, RelayBackend::WasmPulley);
}

#[test]
fn apple_mobile_wasm_is_pulley() {
    let b = resolve_backend(&spec(RelayKind::Wasm, RelayPlatform::Watchos, ArtifactClass::ModeA)).unwrap();
    assert_eq!(b, RelayBackend::WasmPulley);
}

#[test]
fn relay_accepts_both_linux_page_sizes() {
    assert_eq!(GuestPageSize::resolve(Some(4096), 4096).unwrap().bytes(), 4096);
    assert_eq!(GuestPageSize::resolve(Some(16384), 4096).unwrap().bytes(), 16384);
}

#[test]
fn relay_rejects_unknown_page_size() {
    assert!(GuestPageSize::resolve(Some(65536), 4096).is_err());
}

#[test]
fn guest_manifest_requires_valid_linux_geometry() {
    assert_eq!(manifest(4096 * 16).validate().unwrap(), GuestPageSize::four_kib());
}

#[test]
fn guest_manifest_requires_a_trusted_ed25519_signature_in_release_mode() {
    let mut manifest = manifest(4096 * 16);
    let message = b"{\"version\":1,\"memory_bytes\":65536}".to_vec();
    assert!(manifest.verify_trust(&message, &TrustedKeys::new(), false).is_err());
    assert!(manifest.verify_trust(&message, &TrustedKeys::new(), true).is_ok());

    let signing_key = SigningKey::from_bytes(&[7; 32]);
    let signature = signing_key.sign(&message);
    manifest.signature = Some(GuestManifestSignature {
        algorithm: "ed25519".into(),
        key_id: "test-release".into(),
        value: hex(&signature.to_bytes()),
    });
    let mut trusted = TrustedKeys::new();
    trusted.insert("test-release".into(), hex(&signing_key.verifying_key().to_bytes()));
    manifest.verify_trust(&message, &trusted, false).unwrap();
    let changed = b"{\"version\":1,\"memory_bytes\":69632}".to_vec();
    assert!(manifest.verify_trust(&changed, &trusted, false).is_err());
}

#[test]
fn microvm_disk_slider_only_allows_stopped_growth() {
    let plan = DiskResizePlan::from_slider(8, 16, 64, false).unwrap();
    assert!(plan.grows());
    assert!(DiskResizePlan::from_slider(16, 8, 64, false).is_err());
    assert!(DiskResizePlan::from_slider(8, 16, 64, true).is_err());
}

#[test]
fn versioned_machine_profile_owns_vm_and_container_policy() {
    let guest = manifest(512 * 1024 * 1024);
    let vm = RelayMachineProfile {
        version: RelayMachineProfile::VERSION,
        id: "nixos-main".into(),
        kind: RelayKind::Vm,
        guest: guest.clone(),
        image: None,
        memory_mb: 512,
        disk_gib: 8,
        max_disk_gib: 64,
    };
    let spec = vm
        .start_spec(RelayPlatform::Macos, ArtifactClass::ModeA)
        .unwrap();
    assert_eq!(spec.kind, RelayKind::Vm);
    assert_eq!(spec.guest_page_size, Some(4096));

    let mut container = vm.clone();
    container.kind = RelayKind::Container;
    assert!(container.validate().is_err());
    container.image = Some("registry.example/wawona:latest".into());
    assert!(container.validate().is_ok());
    container.kind = RelayKind::Wasm;
    assert!(container.validate().is_err());
}

#[test]
fn error_messages_name_the_failed_rule() {
    let mut m = manifest(4096 * 16);
    m.version = 7;
    assert_eq!(
        m.validate().unwrap_err().message(),
        "unsupported Relay guest manifest version 7"
    );
    let mut m = manifest(4096 * 16);
    m.page_size = 65536;
    assert_eq!(
        m.validate().unwrap_err().message(),
        "Relay supports 4 KiB or 16 KiB pages, got 65536"
    );
    let mut m = manifest(4096 * 15);
    assert_eq!(
        m.validate().unwrap_err().message(),
        "guest memory must be at least 16 pages and page aligned"
    );
    m.memory_bytes = 4096 * 16 + 1;
    assert!(m.validate().is_err());
    let mut m = manifest(4096 * 16);
    m.rootfs.sha256 = "g".repeat(64);
    assert_eq!(m.validate().unwrap_err().message(), "guest rootfs has invalid sha256");
    let mut m = manifest(4096 * 16);
    m.initrd = Some(GuestArtifact { path: String::new(), sha256: "0".repeat(64), bytes: 1 });
    assert_eq!(m.validate().unwrap_err().message(), "guest initrd is empty");
    let mut m = manifest(4096 * 16);
    m.command_line = "a\0b".into();
    assert_eq!(m.validate().unwrap_err().message(), "guest command line contains NUL");
    let mut m = manifest(4096 * 16);
    m.compatibility.kernel_release = Some(" \t".into());
    assert_eq!(
        m.validate().unwrap_err().message(),
        "guest compatibility metadata is unsupported"
    );
    assert_eq!(
        DiskResizePlan::from_slider(8, 100, 64, false).unwrap_err().message(),
        "requested disk size exceeds machine quota"
    );
    assert_eq!(
        RelayError::qemu().message(),
        "QEMU and UTM are not Relay backends"
    );
}

#[test]
fn profile_ids_are_trimmed_ascii_identifiers() {
    let mut vm = RelayMachineProfile {
        version: RelayMachineProfile::VERSION,
        id: "  nixos.main_2 \n".into(),
        kind: RelayKind::Vm,
        guest: manifest(256 * 1024 * 1024),
        image: None,
        memory_mb: 256,
        disk_gib: 4,
        max_disk_gib: 4,
    };
    assert!(vm.validate().is_ok());
    vm.id = "nixos main".into();
    assert_eq!(
        vm.validate().unwrap_err().message(),
        "machine profile id must be 1-128 ASCII identifier characters"
    );
    vm.id = "x".repeat(129);
    assert!(vm.validate().is_err());
    vm.id = "é".into();
    assert!(vm.validate().is_err());
    vm.id = "ok".into();
    vm.image = Some("oci".into());
    assert_eq!(vm.validate().unwrap_err().message(), "VM profile cannot contain an OCI image");
    vm.image = None;
    vm.memory_mb = 128;
    assert_eq!(vm.validate().unwrap_err().message(), "machine profile memory is outside Relay limits");
    vm.memory_mb = 512;
    assert_eq!(
        vm.validate().unwrap_err().message(),
        "machine profile memory differs from guest manifest"
    );
    vm.version = 2;
    assert_eq!(
        vm.validate().unwrap_err().message(),
        "unsupported Relay machine profile version 2"
    );
}

#[test]
fn android_vm_is_planned_or_lab() {
    assert!(matches!(
        resolve_backend(&spec(RelayKind::Vm, RelayPlatform::Android, ArtifactClass::ModeA)),
        Err(RelayError::Planned(_))
    ));
    assert_eq!(
        resolve_backend(&spec(RelayKind::Container, RelayPlatform::Android, ArtifactClass::ModeB)).unwrap(),
        RelayBackend::AvfLab
    );
    assert_eq!(
        resolve_backend(&spec(RelayKind::Wasm, RelayPlatform::Android, ArtifactClass::ModeB)).unwrap(),
        RelayBackend::WasmCranelift
    );
    assert_eq!(RelayBackend::KvmCrosvm.as_str(), "kvm-crosvm");
    assert_eq!(RelayBackend::Unselected.as_str(), "none");
}

#[test]
fn host_page_sizes_classify_and_align() {
    assert_eq!(HostPageSize::detect(16384), HostPageSize::sixteen_kib());
    assert_eq!(HostPageSize::detect(65536), HostPageSize::four_kib());
    assert!(HostPageSize::resolve(8192).is_err());
    assert_eq!(GuestPageSize::resolve(None, 16384).unwrap(), GuestPageSize::sixteen_kib());
    assert!(GuestPageSize::resolve(None, 65536).is_err());
    assert!(GuestPageSize::sixteen_kib().is_aligned(32768));
    assert!(!GuestPageSize::sixteen_kib().is_aligned(4096));
    assert!(HostPageSize::four_kib().is_aligned(0));
}

#[test]
fn hex_keys_are_decoded_exactly() {
    let mut manifest = manifest(4096 * 16);
    manifest.signature = Some(GuestManifestSignature {
        algorithm: "ed25519".into(),
        key_id: "k".into(),
        value: "00".repeat(64),
    });
    let mut trusted = TrustedKeys::new();
    trusted.insert("k".into(), "zz".repeat(32));
    assert_eq!(
        manifest.verify_trust(b"m", &trusted, false).unwrap_err().message(),
        "guest public key is not hexadecimal"
    );
    trusted.insert("k".into(), "00".repeat(31));
    assert_eq!(
        manifest.verify_trust(b"m", &trusted, false).unwrap_err().message(),
        "guest public key has invalid length"
    );
    let mut other = TrustedKeys::new();
    other.insert("other".into(), "00".repeat(32));
    assert_eq!(
        manifest.verify_trust(b"m", &other, false).unwrap_err().message(),
        "guest manifest signing key is not trusted"
    );
    manifest.signature.as_mut().unwrap().algorithm = "rsa".into();
    assert_eq!(
        manifest.verify_trust(b"m", &other, true).unwrap_err().message(),
        "guest manifest signature algorithm is unsupported"
    );
}
