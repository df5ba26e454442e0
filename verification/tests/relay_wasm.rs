use wawona_relay::relay_core::{ArtifactClass, RelayBackend, RelayError, RelayKind, RelayPlatform, RelaySpec};
use wawona_relay::relay_wasm::{
    check_module_bytes, check_module_metadata, classify_image, handle_id, module_to_run,
    pick_executor, prepare, resolve, status, stop, validate_module_path, validate_package_name,
    GuestPoll, GuestStop, ImageRef, ModuleProbe, PackageProbe, WasmExecutionPlan, WasmExecutor,
    WasmSession, WasmStatus,
};

const TINY_MODULE: &[u8] = b"\0asm\x01\0\0\0";

fn spec(platform: RelayPlatform, image: Option<String>) -> RelaySpec {
    RelaySpec {
        kind: RelayKind::Wasm,
        platform,
        artifact: ArtifactClass::ModeA,
        machine_id: None,
        image,
        memory_mb: None,
        guest_page_size: None,
        guest: None,
        resources: None,
        ios_hv_host: None,
    }
}

fn unread() -> ModuleProbe {
    ModuleProbe {
        metadata: Err("not looked up".to_string()),
        contents: Err("not looked up".to_string()),
    }
}

fn file(bytes: &[u8]) -> ModuleProbe {
    ModuleProbe {
        metadata: Ok((true, bytes.len() as u64)),
        contents: Ok(bytes.to_vec()),
    }
}

fn no_package() -> PackageProbe {
    PackageProbe {
        resolved: Err(RelayError::Failed("not installed".to_string())),
        module: unread(),
    }
}

fn failed_message<T: std::fmt::Debug>(r: Result<T, RelayError>) -> String {
    match r {
        Err(RelayError::Failed(message)) => message,
        other => panic!("expected Failed, got {other:?}"),
    }
}

#[test]
fn apple_mobile_uses_pulley_desktop_uses_cranelift_android_mode_a_pulley() {
    for platform in [
        RelayPlatform::Ios,
        RelayPlatform::Ipados,
        RelayPlatform::Tvos,
        RelayPlatform::Watchos,
        RelayPlatform::Visionos,
    ] {
        assert_eq!(
            prepare(&spec(platform, None), unread(), no_package()).unwrap().backend,
            RelayBackend::WasmPulley
        );
    }
    assert_eq!(
        prepare(&spec(RelayPlatform::Android, None), unread(), no_package())
            .unwrap()
            .backend,
        RelayBackend::WasmPulley
    );
    for platform in [RelayPlatform::Macos, RelayPlatform::Linux] {
        assert_eq!(
            prepare(&spec(platform, None), unread(), no_package()).unwrap().backend,
            RelayBackend::WasmCranelift
        );
    }
}

#[test]
fn validates_explicit_module_before_execution() {
    let path = "/tmp/relay-wasm-1.wasm".to_string();
    let plan = prepare(
        &spec(RelayPlatform::Macos, Some(path.clone())),
        file(TINY_MODULE),
        no_package(),
    )
    .unwrap();
    assert_eq!(plan.module.as_deref(), Some(path.as_str()));
    assert_eq!(plan.package, None);
    let bad = prepare(
        &spec(RelayPlatform::Macos, Some(path.clone())),
        file(b"\0asm\x02\0\0\0"),
        no_package(),
    );
    assert!(bad.is_err());
}

#[test]
fn bare_wpm_package_names_stay_named_until_installed() {
    let plan = prepare(
        &spec(RelayPlatform::Ios, Some("hello-wasi-gui".into())),
        unread(),
        no_package(),
    )
    .unwrap();
    assert_eq!(plan.module, None);
    assert_eq!(plan.package.as_deref(), Some("hello-wasi-gui"));
    assert!(prepare(
        &spec(RelayPlatform::Ios, Some("jailbreak-package.deb".into())),
        unread(),
        no_package(),
    )
    .is_err());
}

#[test]
fn start_rejects_missing_wpm_package_with_install_hint() {
    let plan = prepare(
        &spec(RelayPlatform::Macos, Some("hello-wasi-gui".into())),
        unread(),
        no_package(),
    )
    .unwrap();
    let message = failed_message(module_to_run(&plan));
    assert!(message.contains("wpm install hello-wasi-gui"));
}

#[test]
fn prepare_resolves_installed_wpm_package() {
    let resolved = "/store/relay-fixture/0.0.1/component.wasm".to_string();
    let plan = prepare(
        &spec(RelayPlatform::Macos, Some("relay-fixture".into())),
        unread(),
        PackageProbe { resolved: Ok(resolved.clone()), module: file(TINY_MODULE) },
    )
    .unwrap();
    assert_eq!(plan.package.as_deref(), Some("relay-fixture"));
    let module = plan.module.expect("resolved module");
    assert!(module.ends_with("component.wasm"));
}

#[test]
fn resolve_refuses_other_kinds() {
    let mut vm = spec(RelayPlatform::Macos, None);
    vm.kind = RelayKind::Vm;
    assert_eq!(failed_message(resolve(&vm)), "relay-wasm only handles kind=wasm");
    let mut b = spec(RelayPlatform::Android, None);
    b.artifact = ArtifactClass::ModeB;
    assert_eq!(resolve(&b).unwrap(), RelayBackend::WasmCranelift);
}

#[test]
fn images_are_trimmed_and_classified() {
    assert!(matches!(classify_image(&None), ImageRef::Absent));
    assert!(matches!(classify_image(&Some("   ".into())), ImageRef::Absent));
    match classify_image(&Some("  app.wasm \n".into())) {
        ImageRef::Module(p) => assert_eq!(p, "app.wasm"),
        _ => panic!("expected a module path"),
    }
    match classify_image(&Some("dir/app".into())) {
        ImageRef::Module(p) => assert_eq!(p, "dir/app"),
        _ => panic!("expected a module path"),
    }
    match classify_image(&Some(" hello ".into())) {
        ImageRef::Package(p) => assert_eq!(p, "hello"),
        _ => panic!("expected a package name"),
    }
}

#[test]
fn package_names_are_checked() {
    assert!(validate_package_name("hello_wasi-1.2").is_ok());
    assert!(validate_package_name(&"a".repeat(128)).is_ok());
    let refused = "WASM package name is not valid for /wasm/v1";
    assert_eq!(failed_message(validate_package_name(&"a".repeat(129))), refused);
    assert_eq!(failed_message(validate_package_name("pkg.deb")), refused);
    assert_eq!(failed_message(validate_package_name("http:x")), refused);
    assert_eq!(failed_message(validate_package_name("héllo")), refused);
    assert_eq!(failed_message(validate_package_name("has space")), refused);
}

#[test]
fn module_files_are_checked_in_order() {
    let probe = ModuleProbe { metadata: Err("No such file".into()), contents: Err("x".into()) };
    assert_eq!(
        failed_message(validate_module_path("m.wasm", &probe)),
        "cannot stat WASM module: No such file"
    );
    assert_eq!(
        failed_message(check_module_metadata(false, 100)),
        "WASM module is not a valid file"
    );
    assert_eq!(failed_message(check_module_metadata(true, 7)), "WASM module is not a valid file");
    assert_eq!(
        failed_message(check_module_metadata(true, 536870913)),
        "WASM module is not a valid file"
    );
    assert!(check_module_metadata(true, 536870912).is_ok());
    let probe = ModuleProbe { metadata: Ok((true, 8)), contents: Err("denied".into()) };
    assert_eq!(
        failed_message(validate_module_path("m.wasm", &probe)),
        "cannot read WASM module: denied"
    );
    assert_eq!(
        failed_message(check_module_bytes(b"\0asn\x01\0\0\0")),
        "WASM module has invalid magic"
    );
    let message = failed_message(check_module_bytes(b"\0asm\x02\0\0\0"));
    assert!(message.starts_with("invalid WASM module: "), "{message}");
    assert!(message.len() > "invalid WASM module: ".len());
    assert!(check_module_bytes(TINY_MODULE).is_ok());
    assert_eq!(validate_module_path("m.wasm", &file(TINY_MODULE)).unwrap(), "m.wasm");
}

#[test]
fn store_errors_other_than_failed_are_handed_on() {
    let plan = prepare(
        &spec(RelayPlatform::Linux, Some("relay-fixture".into())),
        unread(),
        PackageProbe {
            resolved: Err(RelayError::Planned("store offline")),
            module: unread(),
        },
    );
    assert!(matches!(plan, Err(RelayError::Planned("store offline"))));
}

#[test]
fn start_needs_a_module_or_package() {
    let plan = WasmExecutionPlan { backend: RelayBackend::WasmCranelift, module: None, package: None };
    assert_eq!(
        failed_message(module_to_run(&plan)),
        "Relay wasm start requires a .wasm module path or package name"
    );
    let plan = WasmExecutionPlan {
        backend: RelayBackend::WasmCranelift,
        module: None,
        package: Some("hello".into()),
    };
    assert_eq!(
        failed_message(module_to_run(&plan)),
        "WASM package `hello` is not installed; run `wpm install hello` (Mode A /wasm/v1 only)"
    );
    let plan = WasmExecutionPlan {
        backend: RelayBackend::WasmCranelift,
        module: Some("/m.wasm".into()),
        package: None,
    };
    assert_eq!(module_to_run(&plan).unwrap(), "/m.wasm");
}

#[test]
fn handle_ids_and_executors() {
    assert_eq!(handle_id(4242, 7), "relay-wasm-4242-7");
    assert_eq!(handle_id(0, 10), "relay-wasm-0-10");
    assert_eq!(pick_executor(true, Some("/bin/wasm".into())).unwrap(), WasmExecutor::LinkedSymbol);
    assert_eq!(
        pick_executor(false, Some("/bin/wasm".into())).unwrap(),
        WasmExecutor::Binary("/bin/wasm".into())
    );
    assert!(matches!(pick_executor(false, None), Err(RelayError::Planned(_))));
}

#[test]
fn session_status_and_stop() {
    let mut unknown: Option<WasmSession> = None;
    assert_eq!(
        failed_message(status("relay-wasm-1-1", &mut unknown, GuestPoll::Running)),
        "unknown Relay wasm handle: relay-wasm-1-1"
    );
    let mut session =
        Some(WasmSession { backend: RelayBackend::WasmPulley, exit_code: None });
    assert_eq!(status("a", &mut session, GuestPoll::Running).unwrap(), WasmStatus::Running);
    assert_eq!(status("a", &mut session, GuestPoll::Collected).unwrap(), WasmStatus::Running);
    assert_eq!(status("a", &mut session, GuestPoll::Exited(Some(3))).unwrap(), WasmStatus::Exited);
    assert_eq!(session.unwrap().exit_code, Some(3));
    assert_eq!(status("a", &mut session, GuestPoll::Collected).unwrap().as_str(), "exited");
    assert_eq!(
        failed_message(status("a", &mut session, GuestPoll::Failed("trap".into()))),
        "Relay wasm guest failed: trap"
    );
    assert_eq!(
        failed_message(status("a", &mut session, GuestPoll::Unreadable("EIO".into()))),
        "cannot poll Relay wasm process: EIO"
    );
    assert_eq!(
        failed_message(status("a", &mut session, GuestPoll::Panicked)),
        "Relay wasm guest thread panicked"
    );
    assert!(stop("a", session, GuestStop::Exited(Some(0))).is_ok());
    assert_eq!(
        failed_message(stop("b", None, GuestStop::Collected)),
        "unknown Relay wasm handle: b"
    );
    assert_eq!(
        failed_message(stop("a", session, GuestStop::Unwaitable("ECHILD".into()))),
        "cannot wait for Relay wasm process: ECHILD"
    );
}
