use wawona_relay::relay_core::{
    ArtifactClass, GuestArtifact, GuestCompatibility, GuestManifest, RelayBackend, RelayError,
    RelayKind, RelayPlatform, RelayRuntimeResources, RelaySpec, TrustedKeys,
};
use wawona_relay::vm::launch::{console_log, stop, LogRead, StopLookup, Termination};
use wawona_relay::vm::vz::{
    check_endpoint, check_vz_resources, container_share, disk_action, launcher_args,
    machine_state_key, readiness_step, recent_log_start, recover_stale_session,
    resolve_artifact_path, session_paths, vz_handle, vz_preflight, CanonicalPaths, DiskAction,
    ExistingSession, LauncherPoll, ReadyStep,
};

fn failed_message<T: std::fmt::Debug>(r: Result<T, RelayError>) -> String {
    match r {
        Err(RelayError::Failed(message)) => message,
        other => panic!("expected Failed, got {other:?}"),
    }
}

fn artifact(path: &str) -> GuestArtifact {
    GuestArtifact { path: path.into(), sha256: "00".repeat(32), bytes: 1 }
}

fn manifest(initrd: bool) -> GuestManifest {
    GuestManifest {
        version: GuestManifest::VERSION,
        page_size: 4096,
        memory_bytes: 256 * 1024 * 1024,
        kernel: artifact("/g/Image"),
        initrd: if initrd { Some(artifact("/g/initrd")) } else { None },
        rootfs: artifact("/g/rootfs.img"),
        command_line: "console=hvc0".into(),
        compatibility: GuestCompatibility::default(),
        signature: None,
    }
}

fn resources(allow_unsigned: bool) -> RelayRuntimeResources {
    RelayRuntimeResources {
        launcher: "/bin/vz".into(),
        state_directory: "/state".into(),
        guest_directory: Some("/g".into()),
        trusted_guest_keys: TrustedKeys::new(),
        allow_unsigned_guest: allow_unsigned,
    }
}

fn spec(kind: RelayKind, resources: Option<RelayRuntimeResources>, guest: Option<GuestManifest>) -> RelaySpec {
    RelaySpec {
        kind,
        platform: RelayPlatform::Macos,
        artifact: ArtifactClass::ModeA,
        machine_id: Some("test-vm".into()),
        image: None,
        memory_mb: Some(256),
        guest_page_size: Some(4096),
        guest,
        resources,
        ios_hv_host: None,
    }
}

#[test]
fn vz_preflight_needs_runtime_resources() {
    let s = spec(RelayKind::Vm, None, None);
    assert_eq!(failed_message(vz_preflight(&s, true, b"")), "Relay VZ runtime resources are missing");
}

#[test]
fn preflight_checks_resources_manifest_and_trust() {
    let s = spec(RelayKind::Vm, Some(resources(true)), None);
    assert_eq!(failed_message(vz_preflight(&s, false, b"")), "Relay VZ launcher is not a regular file");
    assert_eq!(failed_message(vz_preflight(&s, true, b"")), "Relay VZ requires a guest manifest");
    let s = spec(RelayKind::Vm, Some(resources(false)), Some(manifest(true)));
    assert_eq!(
        failed_message(vz_preflight(&s, true, b"m")),
        "guest manifest requires a trusted signature"
    );
    let s = spec(RelayKind::Vm, Some(resources(true)), Some(manifest(true)));
    assert!(vz_preflight(&s, true, b"m").is_ok());
    let mut bad = resources(true);
    bad.state_directory = String::new();
    assert_eq!(
        failed_message(check_vz_resources(&bad, true)),
        "Relay VZ runtime resources contain an invalid path"
    );
    bad.state_directory = "/s\0t".into();
    assert!(check_vz_resources(&bad, true).is_err());
}

#[test]
fn artifacts_resolve_inside_the_guest_directory() {
    let ok = |c: &str| CanonicalPaths { root: Ok("/g".into()), candidate: Ok(c.into()) };
    assert_eq!(resolve_artifact_path("/abs/Image", &None, &ok("x")).unwrap(), "/abs/Image");
    assert_eq!(
        failed_message(resolve_artifact_path("Image", &None, &ok("/g/Image"))),
        "relative guest artifact requires guest_directory"
    );
    let dir = Some("g".to_string());
    assert_eq!(resolve_artifact_path("Image", &dir, &ok("/g/Image")).unwrap(), "/g/Image");
    assert_eq!(
        failed_message(resolve_artifact_path("../x", &dir, &ok("/gx"))),
        "guest artifact escapes the guest bundle"
    );
    assert_eq!(
        failed_message(resolve_artifact_path("../x", &dir, &ok("/x"))),
        "guest artifact escapes the guest bundle"
    );
    let missing = CanonicalPaths { root: Ok("/g".into()), candidate: Err("No such file".into()) };
    assert_eq!(
        failed_message(resolve_artifact_path("Image", &dir, &missing)),
        "cannot resolve guest artifact: No such file"
    );
    let no_root = CanonicalPaths { root: Err("denied".into()), candidate: Err("x".into()) };
    assert_eq!(
        failed_message(resolve_artifact_path("Image", &dir, &no_root)),
        "cannot resolve guest bundle directory: denied"
    );
    let top = CanonicalPaths { root: Ok("/".into()), candidate: Ok("/Image".into()) };
    assert_eq!(resolve_artifact_path("Image", &dir, &top).unwrap(), "/Image");
}

#[test]
fn machine_keys_and_stale_sessions() {
    assert_eq!(machine_state_key(&None, 7).unwrap(), "ephemeral-7");
    assert_eq!(machine_state_key(&Some("vm-1".into()), 7).unwrap(), "vm-1");
    assert_eq!(failed_message(machine_state_key(&Some("a/b".into()), 7)), "Relay machine id is invalid");
    assert_eq!(failed_message(machine_state_key(&Some(String::new()), 7)), "Relay machine id is invalid");
    assert_eq!(recover_stale_session(None).unwrap(), false);
    assert_eq!(recover_stale_session(Some(ExistingSession::Exited)).unwrap(), true);
    assert_eq!(
        failed_message(recover_stale_session(Some(ExistingSession::Running))),
        "Relay machine is already running"
    );
    assert_eq!(
        failed_message(recover_stale_session(Some(ExistingSession::Unreadable("ECHILD".into())))),
        "cannot inspect existing Relay VM: ECHILD"
    );
}

#[test]
fn sessions_keep_their_files_under_the_state_directory() {
    let paths = session_paths("/state", "test-vm", 42, 3);
    assert_eq!(paths.id, "relay-vz-42-3");
    assert_eq!(paths.directory, "/state/machines/test-vm");
    assert_eq!(paths.disk, "/state/machines/test-vm/rootfs.img");
    assert_eq!(paths.endpoint, "/state/machines/test-vm/wayland.sock");
    assert_eq!(paths.log, "/state/machines/test-vm/console.log");
    assert!(check_endpoint(&paths.endpoint).is_ok());
    assert_eq!(
        failed_message(check_endpoint(&"x".repeat(100))),
        "Relay Wayland endpoint exceeds the Unix socket path limit"
    );
    assert!(check_endpoint(&"x".repeat(99)).is_ok());
    assert_eq!(disk_action(None, 10).unwrap(), DiskAction::Create);
    assert_eq!(disk_action(Some((true, 10)), 10).unwrap(), DiskAction::Reuse);
    assert_eq!(
        failed_message(disk_action(Some((true, 9)), 10)),
        "persisted VM disk is invalid or smaller than its immutable base"
    );
    assert!(disk_action(Some((false, 100)), 10).is_err());
}

#[test]
fn launcher_command_lines() {
    let args = launcher_args(&manifest(true), "/d/rootfs.img", "/d/wayland.sock", &None).unwrap();
    assert_eq!(
        args,
        [
            "--kernel", "/g/Image", "--initrd", "/g/initrd", "--disk", "/d/rootfs.img",
            "--cmdline", "console=hvc0", "--memory-mib", "256", "--vsock-connect", "1024",
            "--listen-unix", "/d/wayland.sock",
        ]
        .map(String::from)
        .to_vec()
    );
    let shared = launcher_args(&manifest(true), "d", "e", &Some("/b".into())).unwrap();
    assert_eq!(&shared[14..], &["--share-dir", "/b", "--share-tag", "oci-bundle"].map(String::from));
    assert_eq!(
        failed_message(launcher_args(&manifest(false), "d", "e", &None)),
        "Relay VZ requires a guest initrd"
    );
    let mut container = spec(RelayKind::Container, None, None);
    assert_eq!(
        failed_message(container_share(&container, true)),
        "Relay container start requires a materialized OCI bundle"
    );
    container.image = Some("/b".into());
    assert_eq!(
        failed_message(container_share(&container, false)),
        "Relay OCI share is not a runtime bundle (need config.json + rootfs/)"
    );
    assert_eq!(container_share(&container, true).unwrap(), Some("/b".into()));
    assert_eq!(container_share(&spec(RelayKind::Vm, None, None), false).unwrap(), None);
}

#[test]
fn readiness_waits_for_the_marker() {
    assert!(matches!(readiness_step(LauncherPoll::Running("booting".into()), 10, ""), ReadyStep::Wait));
    assert!(matches!(
        readiness_step(LauncherPoll::Running("x WAWONA_RELAY_READY=1\n".into()), 10, ""),
        ReadyStep::Ready
    ));
    match readiness_step(LauncherPoll::Running("booting".into()), 90_000, "tail") {
        ReadyStep::Fail(e) => assert_eq!(failed_message::<()>(Err(e)), "Relay VZ guest readiness timed out\ntail"),
        other => panic!("expected a failure, got {other:?}"),
    }
    match readiness_step(LauncherPoll::Exited("exit status: 1".into()), 10, "tail") {
        ReadyStep::Fail(e) => assert_eq!(
            failed_message::<()>(Err(e)),
            "Relay VZ launcher exited before guest readiness: exit status: 1\ntail"
        ),
        other => panic!("expected a failure, got {other:?}"),
    }
    assert_eq!(recent_log_start(100), 0);
    assert_eq!(recent_log_start(20_000), 20_000 - 16_384);
    let handle = vz_handle("relay-vz-1-1".into(), RelayKind::Vm, "/e".into());
    assert_eq!(handle.backend, RelayBackend::Vz);
    assert_eq!(handle.wayland_endpoint.as_deref(), Some("/e"));
}

#[test]
fn logs_and_stops_report_the_registry() {
    assert!(matches!(console_log(false, LogRead::Missing), Err(RelayError::Planned(_))));
    assert_eq!(console_log(true, LogRead::Read(b"log".to_vec())).unwrap(), b"log".to_vec());
    assert_eq!(failed_message(console_log(true, LogRead::Missing)), "Relay VM handle is not running");
    assert_eq!(
        failed_message(console_log(true, LogRead::Unreadable("EIO".into()))),
        "cannot read Relay VM log: EIO"
    );
    assert!(stop(false, StopLookup::Missing).is_ok());
    assert!(stop(true, StopLookup::Found(Termination::Stopped)).is_ok());
    assert_eq!(failed_message(stop(true, StopLookup::Missing)), "Relay VM handle is not running");
    assert_eq!(
        failed_message(stop(true, StopLookup::Found(Termination::KillFailed("EPERM".into())))),
        "cannot terminate Relay VM: EPERM"
    );
    assert_eq!(
        failed_message(stop(true, StopLookup::Poisoned)),
        "Relay VZ session registry is poisoned"
    );
}
