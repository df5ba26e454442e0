use wawona_relay::relay_core::ios_hv::IosHvHost;
use wawona_relay::relay_core::{
    ArtifactClass, GuestArtifact, GuestCompatibility, GuestManifest, RelayError, RelayKind,
    RelayPlatform, RelayRuntimeResources, RelaySpec, TrustedKeys,
};
use wawona_relay::vm::launch::{
    start, start_kvm, status, GuestInputs, HostFacts, RelayVmStatus, SessionPoll,
};

fn spec(platform: RelayPlatform, artifact: ArtifactClass) -> RelaySpec {
    RelaySpec {
        kind: RelayKind::Vm,
        platform,
        artifact,
        machine_id: None,
        image: None,
        memory_mb: None,
        guest_page_size: None,
        guest: None,
        resources: None,
        ios_hv_host: None,
    }
}

fn host(macos: bool) -> HostFacts {
    HostFacts { macos, kvm_present: false, host_page_bytes: 16384, launcher_is_file: true }
}

fn no_guest() -> GuestInputs {
    GuestInputs {
        signing_bytes: Vec::new(),
        kernel: Err(RelayError::Failed("no kernel".into())),
        initrd: None,
        rootfs: Err(RelayError::Failed("no rootfs".into())),
    }
}

#[test]
fn macos_vz_fails_closed_without_runtime_resources() {
    let spec = spec(RelayPlatform::Macos, ArtifactClass::ModeA);
    assert!(matches!(start(&spec, &host(true), no_guest()), Err(RelayError::Failed(_))));
    assert_eq!(
        start(&spec, &host(true), no_guest()).unwrap_err().message(),
        "Relay VZ runtime resources are missing"
    );
    assert!(matches!(start(&spec, &host(false), no_guest()), Err(RelayError::Failed(_))));
}

#[test]
fn static_cpu_vm_without_guest_never_returns_proof_frame() {
    let mut spec = spec(RelayPlatform::Ios, ArtifactClass::ModeA);
    spec.guest_page_size = Some(4096);
    let error = start(&spec, &host(false), no_guest()).unwrap_err();
    assert!(error.message().contains("requires a guest manifest"));
}

#[test]
fn ios_hv_start_is_planned_until_vcpu_exists() {
    let mut spec = spec(RelayPlatform::Ios, ArtifactClass::ModeB);
    spec.ios_hv_host = Some(IosHvHost::iphone_14_pro_16_3_1());
    assert!(matches!(start(&spec, &host(false), no_guest()), Err(RelayError::Planned(_))));
}

#[test]
fn linux_kvm_fails_closed_and_vz_launches_only_on_macos() {
    assert_eq!(
        start_kvm(false).err().unwrap().message(),
        "/dev/kvm missing. Fail closed. No QEMU TCG"
    );
    assert!(matches!(start_kvm(true), Err(RelayError::Planned(_))));
    let linux = spec(RelayPlatform::Linux, ArtifactClass::ModeA);
    assert_eq!(
        start(&linux, &host(false), no_guest()).unwrap_err().message(),
        "/dev/kvm missing. Fail closed. No QEMU TCG"
    );
    let mut mac = spec(RelayPlatform::Macos, ArtifactClass::ModeA);
    mac.resources = Some(RelayRuntimeResources {
        launcher: "/bin/vz".into(),
        state_directory: "/state".into(),
        guest_directory: Some("/g".into()),
        trusted_guest_keys: TrustedKeys::new(),
        allow_unsigned_guest: true,
    });
    assert_eq!(
        start(&mac, &host(true), no_guest()).unwrap_err().message(),
        "Relay VZ requires a guest manifest"
    );
    mac.guest = Some(GuestManifest {
        version: GuestManifest::VERSION,
        page_size: 4096,
        memory_bytes: 256 * 1024 * 1024,
        kernel: GuestArtifact { path: "/g/Image".into(), sha256: "00".repeat(32), bytes: 1 },
        initrd: Some(GuestArtifact { path: "/g/initrd".into(), sha256: "00".repeat(32), bytes: 1 }),
        rootfs: GuestArtifact { path: "/g/rootfs.img".into(), sha256: "00".repeat(32), bytes: 1 },
        command_line: "console=hvc0".into(),
        compatibility: GuestCompatibility::default(),
        signature: None,
    });
    let mut inputs = no_guest();
    inputs.initrd = Some(Err(RelayError::Failed("not read".into())));
    assert!(start(&mac, &host(true), inputs).is_ok());
    let mut unlaunchable = host(true);
    unlaunchable.launcher_is_file = false;
    let mut inputs = no_guest();
    inputs.initrd = Some(Err(RelayError::Failed("not read".into())));
    assert_eq!(
        start(&mac, &unlaunchable, inputs).unwrap_err().message(),
        "Relay VZ launcher is not a regular file"
    );
}

#[test]
fn machine_status_follows_the_session_poll() {
    assert!(matches!(status(false, SessionPoll::Running), Err(RelayError::Planned(_))));
    assert_eq!(status(true, SessionPoll::Running).unwrap(), RelayVmStatus::Running);
    assert_eq!(status(true, SessionPoll::Exited).unwrap(), RelayVmStatus::Exited);
    assert_eq!(
        status(true, SessionPoll::Missing).unwrap_err().message(),
        "Relay VM handle is not running"
    );
    assert_eq!(
        status(true, SessionPoll::Unreadable("gone".into())).unwrap_err().message(),
        "cannot inspect Relay VM: gone"
    );
}
