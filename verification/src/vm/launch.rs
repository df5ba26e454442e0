//! Linux VM start and status. Containers always sit on this backend.
//!
//! What a start needs from the host (the platform, `/dev/kvm`, the guest
//! files and the manifest's signing bytes) is handed in; launching a
//! Virtualization.framework guest process is left to the host.
use crate::relay_core::{
    backend_for, error_text, fails_with, trust_check, GuestManifest, RelayBackend, RelayError, RelayKind,
    RelaySpec,
};
use crate::relay_core::{manifest_check, RelayRuntimeResources};
use crate::vm::guest::{
    boot_verdict, fresh_ram, initrd_bytes, measure_verdict, read_bytes,
    read_verdict, sha256, sha256_digest, staging, validate_artifacts, ArtifactDigest,
};
use crate::vm::linux_boot::{cpu_refusal, prepare};
use crate::vm::vz::{preflight_check, vz_preflight};
use vstd::prelude::*;

verus! {

#[derive(Debug, Clone, Copy, PartialEq, Eq, Structural)]
pub enum RelayVmStatus {
    Running,
    Exited,
}

/// A started guest machine as Wawona sees it.
#[derive(Debug, Clone)]
pub struct RelayHandle {
    pub id: String,
    pub backend: RelayBackend,
    pub kind: RelayKind,
    pub wayland_endpoint: Option<String>,
    pub frame: Option<Vec<u8>>,
    pub frame_width: u32,
    pub frame_height: u32,
}

/// Facts about the host a start depends on.
pub struct HostFacts {
    pub macos: bool,
    pub kvm_present: bool,
    pub host_page_bytes: u32,
    /// Whether the VZ launcher the runtime resources name is a regular file.
    pub launcher_is_file: bool,
}

/// The guest as the host read it: the manifest's canonical signing bytes and
/// the artifact files, each as read or the read's failure. `initrd` is
/// present exactly when the manifest names an initrd.
pub struct GuestInputs {
    pub signing_bytes: Vec<u8>,
    pub kernel: Result<Vec<u8>, RelayError>,
    pub initrd: Option<Result<Vec<u8>, RelayError>>,
    pub rootfs: Result<Vec<u8>, RelayError>,
}

fn failed(message: &str) -> (r: RelayError)
    ensures
        r is Failed,
        error_text(r) == message@,
{
    RelayError::Failed(String::from_str(message))
}

/// The length and digest of bytes that were read.
fn measure(read: &Result<Vec<u8>, RelayError>) -> (r: Result<ArtifactDigest, RelayError>)
    ensures
        read is Ok <==> r is Ok,
        r matches Ok(m) ==> m.bytes == read->Ok_0@.len() && m.sha256@ == sha256(read->Ok_0@),
        r matches Err(e) ==> error_text(e) == error_text(read->Err_0),
{
    match read {
        Ok(bytes) => Ok(ArtifactDigest { bytes: bytes.len() as u64, sha256: sha256_digest(bytes.as_slice()) }),
        Err(e) => Err(copy_error(e)),
    }
}

fn copy_error(e: &RelayError) -> (r: RelayError)
    ensures
        error_text(r) == error_text(*e),
        r is Failed <==> e is Failed,
        r is Planned <==> e is Planned,
        r is Forbidden <==> e is Forbidden,
{
    match e {
        RelayError::Forbidden(m) => RelayError::Forbidden(m),
        RelayError::Planned(m) => RelayError::Planned(m),
        RelayError::Failed(m) => RelayError::Failed(m.clone()),
    }
}

/// A Virtualization.framework start: only guest machines, only on macOS, and
/// only with runtime resources, a launcher that is a file and a trusted guest
/// manifest. `Ok` means the host may launch the guest.
pub fn start_vz(spec: &RelaySpec, host: &HostFacts, signing_bytes: &[u8]) -> (r: Result<(), RelayError>)
    ensures
        spec.kind == RelayKind::Wasm ==> r is Err && error_text(r->Err_0) == "vz is a VM backend"@,
        spec.kind != RelayKind::Wasm && !host.macos ==> r is Err && error_text(r->Err_0)
            == "Virtualization.framework is available only on macOS"@,
        spec.kind != RelayKind::Wasm && host.macos ==> match preflight_check(
            *spec,
            host.launcher_is_file,
            signing_bytes@,
        ) {
            Ok(_) => r is Ok,
            Err(m) => fails_with(r, m),
        },
        r is Err ==> r->Err_0 is Failed,
{
    if matches!(spec.kind, RelayKind::Wasm) {
        return Err(failed("vz is a VM backend"));
    }
    if !host.macos {
        return Err(failed("Virtualization.framework is available only on macOS"));
    }
    vz_preflight(spec, host.launcher_is_file, signing_bytes)
}

/// A KVM start: without `/dev/kvm` it fails closed, and no launcher exists yet.
pub fn start_kvm(kvm_present: bool) -> (r: Result<RelayHandle, RelayError>)
    ensures
        r is Err,
        !kvm_present ==> r->Err_0 is Failed && error_text(r->Err_0)
            == "/dev/kvm missing. Fail closed. No QEMU TCG"@,
        kvm_present ==> r->Err_0 is Planned && error_text(r->Err_0)
            == "Relay KVM launch is not implemented yet; no VM was started"@,
{
    if !kvm_present {
        return Err(failed("/dev/kvm missing. Fail closed. No QEMU TCG"));
    }
    Err(RelayError::Planned("Relay KVM launch is not implemented yet; no VM was started"))
}

/// Why a trusted guest's files, as read, do not match its manifest.
pub open spec fn files_verdict(
    m: GuestManifest,
    kernel: Result<Vec<u8>, RelayError>,
    rootfs: Result<Vec<u8>, RelayError>,
    initrd: Option<Result<Vec<u8>, RelayError>>,
) -> Result<(), Seq<char>> {
    if manifest_check(m) is Err {
        Err(manifest_check(m)->Err_0)
    } else if read_verdict("kernel"@, m.kernel, kernel) is Err {
        read_verdict("kernel"@, m.kernel, kernel)
    } else if read_verdict("rootfs"@, m.rootfs, rootfs) is Err {
        read_verdict("rootfs"@, m.rootfs, rootfs)
    } else if m.initrd is Some && read_verdict("initrd"@, m.initrd->0, initrd->0) is Err {
        read_verdict("initrd"@, m.initrd->0, initrd->0)
    } else {
        Ok(())
    }
}

/// The verdict on a guest before it is staged: its trust, then its files.
pub open spec fn guest_verdict(m: GuestManifest, res: RelayRuntimeResources, inputs: GuestInputs) -> Result<
    (),
    Seq<char>,
> {
    let trust = trust_check(
        m.signature,
        inputs.signing_bytes@,
        res.trusted_guest_keys.pairs(),
        res.allow_unsigned_guest,
    );
    if trust is Err {
        Err(trust->Err_0)
    } else {
        files_verdict(m, inputs.kernel, inputs.rootfs, inputs.initrd)
    }
}

/// What stops a checked guest's static-CPU boot before the guest runs: the
/// boot checks on the files as read, staging into fresh RAM, or a CPU that
/// cannot be created.
pub open spec fn boot_refusal(m: GuestManifest, inputs: GuestInputs, host_page_bytes: u32) -> Option<
    Seq<char>,
> {
    let t = crate::vm::page_translate::PageTranslate {
        guest: crate::relay_core::GuestPageSize(m.page_size),
        host: crate::relay_core::HostPageSize::detect_spec(host_page_bytes),
    };
    if manifest_check(m) is Err {
        Some(manifest_check(m)->Err_0)
    } else if read_verdict("kernel"@, m.kernel, inputs.kernel) is Err {
        Some(read_verdict("kernel"@, m.kernel, inputs.kernel)->Err_0)
    } else if m.initrd is Some && read_verdict("initrd"@, m.initrd->0, inputs.initrd->0) is Err {
        Some(read_verdict("initrd"@, m.initrd->0, inputs.initrd->0)->Err_0)
    } else if read_verdict("rootfs"@, m.rootfs, inputs.rootfs) is Err {
        Some(read_verdict("rootfs"@, m.rootfs, inputs.rootfs)->Err_0)
    } else if !crate::vm::guest::allocation_fits(t, m.memory_bytes) {
        Some(crate::vm::guest::allocation_failure(t, m.memory_bytes)->Err_0)
    } else {
        match staging(
            fresh_ram(m, host_page_bytes),
            read_bytes(inputs.kernel),
            initrd_bytes(inputs.initrd),
            m.page_size as u64,
            m.memory_bytes,
            m.command_line@,
        ) {
            Err(e) => Some(e),
            Ok(_) => cpu_refusal(read_bytes(inputs.kernel), read_bytes(inputs.rootfs).len()),
        }
    }
}

/// Check the guest's trust and artifacts, as both static-CPU and
/// Hypervisor.framework starts do.
fn check_guest(manifest: &GuestManifest, spec: &RelaySpec, inputs: &GuestInputs) -> (r: Result<
    (),
    RelayError,
>)
    requires
        manifest.initrd is Some <==> inputs.initrd is Some,
    ensures
        spec.resources is None ==> r is Err && r->Err_0 is Failed && error_text(r->Err_0)
            == "Relay guest trust configuration is missing"@,
        spec.resources matches Some(res) ==> match guest_verdict(*manifest, res, *inputs) {
            Ok(()) => r is Ok,
            Err(t) => r is Err && error_text(r->Err_0) == t,
        },
        spec.resources is Some && trust_check(
            manifest.signature,
            inputs.signing_bytes@,
            spec.resources->0.trusted_guest_keys.pairs(),
            spec.resources->0.allow_unsigned_guest,
        ) is Err ==> r is Err && error_text(r->Err_0) == trust_check(
            manifest.signature,
            inputs.signing_bytes@,
            spec.resources->0.trusted_guest_keys.pairs(),
            spec.resources->0.allow_unsigned_guest,
        )->Err_0,
{
    let resources = match &spec.resources {
        Some(r) => r,
        None => {
            return Err(failed("Relay guest trust configuration is missing"));
        },
    };
    match manifest.verify_trust(
        inputs.signing_bytes.as_slice(),
        &resources.trusted_guest_keys,
        resources.allow_unsigned_guest,
    ) {
        Ok(()) => {},
        Err(e) => {
            return Err(e);
        },
    }
    let kernel = measure(&inputs.kernel);
    let rootfs = measure(&inputs.rootfs);
    let initrd = match &inputs.initrd {
        Some(read) => Some(measure(read)),
        None => None,
    };
    match validate_artifacts(manifest, kernel, rootfs, initrd) {
        Ok(_) => Ok(()),
        Err(e) => Err(e),
    }
}

/// What stops a static-CPU start before the guest runs: a wasm spec, a
/// missing manifest or trust configuration, the guest's verdict, or its boot.
#[verifier::opaque]
pub open spec fn static_cpu_refusal(spec: RelaySpec, host_page_bytes: u32, inputs: GuestInputs) -> Option<
    Seq<char>,
> {
    if spec.kind == RelayKind::Wasm {
        Some("static CPU is a guest-machine backend"@)
    } else if spec.guest is None {
        Some("Relay VM/container start requires a guest manifest"@)
    } else if spec.resources is None {
        Some("Relay guest trust configuration is missing"@)
    } else {
        match guest_verdict(spec.guest->0, spec.resources->0, inputs) {
            Err(t) => Some(t),
            Ok(()) => boot_refusal(spec.guest->0, inputs, host_page_bytes),
        }
    }
}

/// The refusal of a Hypervisor.framework start, since no vCPU exists yet.
pub open spec fn hv_planned() -> RelayError {
    RelayError::Planned("Relay selected IosHv; Hypervisor.framework vCPU is not implemented yet")
}

/// The check of a Hypervisor.framework start's guest, when it names one.
pub open spec fn hv_check(spec: RelaySpec, inputs: GuestInputs) -> Result<(), Seq<char>> {
    if spec.guest is None {
        Ok(())
    } else if spec.resources is None {
        Err("Relay guest trust configuration is missing"@)
    } else {
        guest_verdict(spec.guest->0, spec.resources->0, inputs)
    }
}

/// A static-CPU start of a guest machine: the guest must be trusted and its
/// artifacts verified, then it is staged and run until its first stop,
/// which is reported. No start returns a proof frame as a booted guest.
pub fn start_ios(spec: &RelaySpec, host_page_bytes: u32, inputs: GuestInputs) -> (r: Result<
    RelayHandle,
    RelayError,
>)
    requires
        spec.guest matches Some(m) ==> (m.initrd is Some <==> inputs.initrd is Some),
    ensures
        r is Err,
        static_cpu_refusal(*spec, host_page_bytes, inputs) matches Some(t) ==> error_text(r->Err_0)
            == t,
        spec.kind == RelayKind::Wasm || spec.guest is None || spec.resources is None ==> r->Err_0 is Failed,
{
    proof {
        reveal(static_cpu_refusal);
    }
    if matches!(spec.kind, RelayKind::Wasm) {
        return Err(failed("static CPU is a guest-machine backend"));
    }
    let manifest = match &spec.guest {
        Some(m) => m,
        None => {
            return Err(failed("Relay VM/container start requires a guest manifest"));
        },
    };
    match check_guest(manifest, spec, &inputs) {
        Ok(()) => {},
        Err(e) => {
            return Err(e);
        },
    }
    let rootfs_digest = measure(&inputs.rootfs);
    let rootfs_base = match inputs.rootfs {
        Ok(bytes) => bytes,
        Err(_) => Vec::new(),
    };
    match prepare(manifest, inputs.kernel, inputs.initrd, rootfs_digest, rootfs_base, host_page_bytes) {
        Ok(_) => Err(failed("linux boot stopped without a report")),
        Err(e) => Err(e),
    }
}

/// A Hypervisor.framework start: a guest, if given, is checked, and then the
/// start is planned, since no vCPU exists yet.
pub fn start_ios_hv(spec: &RelaySpec, inputs: &GuestInputs) -> (r: Result<RelayHandle, RelayError>)
    requires
        spec.guest matches Some(m) ==> (m.initrd is Some <==> inputs.initrd is Some),
    ensures
        r is Err,
        match hv_check(*spec, *inputs) {
            Ok(()) => r->Err_0 == hv_planned(),
            Err(t) => error_text(r->Err_0) == t,
        },
        spec.guest is Some && spec.resources is None ==> r->Err_0 is Failed,
{
    if let Some(manifest) = &spec.guest {
        match check_guest(manifest, spec, inputs) {
            Ok(()) => {},
            Err(e) => {
                return Err(e);
            },
        }
    }
    Err(RelayError::Planned("Relay selected IosHv; Hypervisor.framework vCPU is not implemented yet"))
}

/// Start a guest machine for `spec`. The backend comes from the spec; only a
/// Virtualization.framework guest on macOS can start, and `Ok` asks the host
/// to launch it. Every other backend reports why no machine was started.
#[verifier::rlimit(40)]
pub fn start(spec: &RelaySpec, host: &HostFacts, inputs: GuestInputs) -> (r: Result<(), RelayError>)
    requires
        spec.guest matches Some(m) ==> (m.initrd is Some <==> inputs.initrd is Some),
    ensures
        backend_for(*spec) matches Err(e) ==> r == Err::<(), RelayError>(e),
        r is Ok <==> backend_for(*spec) == Ok::<RelayBackend, RelayError>(RelayBackend::Vz)
            && spec.kind != RelayKind::Wasm && host.macos && preflight_check(
            *spec,
            host.launcher_is_file,
            inputs.signing_bytes@,
        ) is Ok,
        backend_for(*spec) == Ok::<RelayBackend, RelayError>(RelayBackend::Vz) && spec.kind
            != RelayKind::Wasm && host.macos ==> match preflight_check(
            *spec,
            host.launcher_is_file,
            inputs.signing_bytes@,
        ) {
            Ok(_) => r is Ok,
            Err(m) => fails_with(r, m),
        },
        backend_for(*spec) == Ok::<RelayBackend, RelayError>(RelayBackend::AvfLab) ==> r
            == Err::<(), RelayError>(
            RelayError::Planned("Android AVF is lab/root only. Not wired into Play"),
        ),
        (backend_for(*spec) == Ok::<RelayBackend, RelayError>(RelayBackend::WasmPulley)
            || backend_for(*spec) == Ok::<RelayBackend, RelayError>(RelayBackend::WasmCranelift)
            || backend_for(*spec) == Ok::<RelayBackend, RelayError>(RelayBackend::Unselected))
            ==> r is Err && error_text(r->Err_0) == "vm crate does not start wasm"@,
        backend_for(*spec) == Ok::<RelayBackend, RelayError>(RelayBackend::Vz) ==> (spec.kind
            == RelayKind::Wasm ==> fails_with(r, "vz is a VM backend"@)),
        backend_for(*spec) == Ok::<RelayBackend, RelayError>(RelayBackend::Vz) && spec.kind
            != RelayKind::Wasm && !host.macos ==> fails_with(
            r,
            "Virtualization.framework is available only on macOS"@,
        ),
        (backend_for(*spec) == Ok::<RelayBackend, RelayError>(RelayBackend::KvmCloudHypervisor)
            || backend_for(*spec) == Ok::<RelayBackend, RelayError>(RelayBackend::KvmCrosvm)) ==> {
            &&& !host.kvm_present ==> fails_with(r, "/dev/kvm missing. Fail closed. No QEMU TCG"@)
            &&& host.kvm_present ==> r is Err && r->Err_0 is Planned && error_text(r->Err_0)
                == "Relay KVM launch is not implemented yet; no VM was started"@
        },
        (backend_for(*spec) == Ok::<RelayBackend, RelayError>(RelayBackend::StaticCpu)
            || backend_for(*spec) == Ok::<RelayBackend, RelayError>(RelayBackend::ModeBJit)) ==> {
            &&& r is Err
            &&& static_cpu_refusal(*spec, host.host_page_bytes, inputs) matches Some(t)
                ==> error_text(r->Err_0) == t
            &&& spec.kind == RelayKind::Wasm || spec.guest is None || spec.resources is None
                ==> r->Err_0 is Failed
        },
        backend_for(*spec) == Ok::<RelayBackend, RelayError>(RelayBackend::IosHv) ==> {
            &&& r is Err
            &&& match hv_check(*spec, inputs) {
                Ok(()) => r->Err_0 == hv_planned(),
                Err(t) => error_text(r->Err_0) == t,
            }
            &&& spec.guest is Some && spec.resources is None ==> r->Err_0 is Failed
        },
{
    let backend = match crate::relay_core::resolve_backend(spec) {
        Ok(b) => b,
        Err(e) => {
            return Err(e);
        },
    };
    match backend {
        RelayBackend::Vz => start_vz(spec, host, inputs.signing_bytes.as_slice()),
        RelayBackend::KvmCloudHypervisor | RelayBackend::KvmCrosvm => match start_kvm(
            host.kvm_present,
        ) {
            Ok(_) => Ok(()),
            Err(e) => Err(e),
        },
        RelayBackend::AvfLab => Err(
            RelayError::Planned("Android AVF is lab/root only. Not wired into Play"),
        ),
        RelayBackend::StaticCpu | RelayBackend::ModeBJit => match start_ios(
            spec,
            host.host_page_bytes,
            inputs,
        ) {
            Ok(_) => Ok(()),
            Err(e) => Err(e),
        },
        RelayBackend::IosHv => match start_ios_hv(spec, &inputs) {
            Ok(_) => Ok(()),
            Err(e) => Err(e),
        },
        _ => Err(failed("vm crate does not start wasm")),
    }
}

/// What the host's session registry showed of a machine handle.
pub enum SessionPoll {
    /// No session of that handle is registered.
    Missing,
    /// The registry lock was poisoned.
    Poisoned,
    Running,
    Exited,
    /// Polling the guest process failed, with the host's message.
    Unreadable(String),
}

/// The status of a machine from what the host polled of its session. Off macOS no
/// machine backend reports status yet.
pub fn status(macos: bool, poll: SessionPoll) -> (r: Result<RelayVmStatus, RelayError>)
    ensures
        !macos ==> r == Err::<RelayVmStatus, RelayError>(
            RelayError::Planned("Relay VM status is not implemented on this backend"),
        ),
        macos ==> match poll {
            SessionPoll::Missing => r is Err && error_text(r->Err_0)
                == "Relay VM handle is not running"@,
            SessionPoll::Poisoned => r is Err && error_text(r->Err_0)
                == "Relay VZ session registry is poisoned"@,
            SessionPoll::Running => r == Ok::<RelayVmStatus, RelayError>(RelayVmStatus::Running),
            SessionPoll::Exited => r == Ok::<RelayVmStatus, RelayError>(RelayVmStatus::Exited),
            SessionPoll::Unreadable(m) => r is Err && error_text(r->Err_0)
                == "cannot inspect Relay VM: "@ + m@,
        },
{
    if !macos {
        return Err(RelayError::Planned("Relay VM status is not implemented on this backend"));
    }
    match poll {
        SessionPoll::Missing => Err(failed("Relay VM handle is not running")),
        SessionPoll::Poisoned => Err(failed("Relay VZ session registry is poisoned")),
        SessionPoll::Running => Ok(RelayVmStatus::Running),
        SessionPoll::Exited => Ok(RelayVmStatus::Exited),
        SessionPoll::Unreadable(m) => {
            let mut message = String::from_str("cannot inspect Relay VM: ");
            message.append(m.as_str());
            Err(RelayError::Failed(message))
        },
    }
}

/// What the host's session registry gave for a console log request.
pub enum LogRead {
    Missing,
    Poisoned,
    Read(Vec<u8>),
    /// Reading the log file failed, with the host's message.
    Unreadable(String),
}

/// A machine's console log. Off macOS no machine backend keeps one yet.
pub fn console_log(macos: bool, read: LogRead) -> (r: Result<Vec<u8>, RelayError>)
    ensures
        !macos ==> r == Err::<Vec<u8>, RelayError>(
            RelayError::Planned("Relay VM logs are not implemented on this backend"),
        ),
        macos ==> match read {
            LogRead::Missing => r is Err && r->Err_0 is Failed && error_text(r->Err_0)
                == "Relay VM handle is not running"@,
            LogRead::Poisoned => r is Err && r->Err_0 is Failed && error_text(r->Err_0)
                == "Relay VZ session registry is poisoned"@,
            LogRead::Read(bytes) => r == Ok::<Vec<u8>, RelayError>(bytes),
            LogRead::Unreadable(m) => r is Err && r->Err_0 is Failed && error_text(r->Err_0)
                == "cannot read Relay VM log: "@ + m@,
        },
{
    if !macos {
        return Err(RelayError::Planned("Relay VM logs are not implemented on this backend"));
    }
    match read {
        LogRead::Missing => Err(failed("Relay VM handle is not running")),
        LogRead::Poisoned => Err(failed("Relay VZ session registry is poisoned")),
        LogRead::Read(bytes) => Ok(bytes),
        LogRead::Unreadable(m) => {
            let mut message = String::from_str("cannot read Relay VM log: ");
            message.append(m.as_str());
            Err(RelayError::Failed(message))
        },
    }
}

/// How ending a session's launcher went: it stopped after SIGTERM or a kill,
/// or polling, killing or reaping it failed with the host's message.
pub enum Termination {
    Stopped,
    PollFailed(String),
    KillFailed(String),
    ReapFailed(String),
}

/// What the host's session registry gave for a stop request.
pub enum StopLookup {
    Missing,
    Poisoned,
    Found(Termination),
}

/// Stop a machine. Off macOS there is nothing to stop.
pub fn stop(macos: bool, lookup: StopLookup) -> (r: Result<(), RelayError>)
    ensures
        !macos ==> r is Ok,
        macos ==> match lookup {
            StopLookup::Missing => r is Err && r->Err_0 is Failed && error_text(r->Err_0)
                == "Relay VM handle is not running"@,
            StopLookup::Poisoned => r is Err && r->Err_0 is Failed && error_text(r->Err_0)
                == "Relay VZ session registry is poisoned"@,
            StopLookup::Found(Termination::Stopped) => r is Ok,
            StopLookup::Found(Termination::PollFailed(m)) => r is Err && r->Err_0 is Failed
                && error_text(r->Err_0) == "cannot stop Relay VM: "@ + m@,
            StopLookup::Found(Termination::KillFailed(m)) => r is Err && r->Err_0 is Failed
                && error_text(r->Err_0) == "cannot terminate Relay VM: "@ + m@,
            StopLookup::Found(Termination::ReapFailed(m)) => r is Err && r->Err_0 is Failed
                && error_text(r->Err_0) == "cannot reap Relay VM: "@ + m@,
        },
{
    if !macos {
        return Ok(());
    }
    let (prefix, m) = match lookup {
        StopLookup::Missing => return Err(failed("Relay VM handle is not running")),
        StopLookup::Poisoned => return Err(failed("Relay VZ session registry is poisoned")),
        StopLookup::Found(Termination::Stopped) => return Ok(()),
        StopLookup::Found(Termination::PollFailed(m)) => ("cannot stop Relay VM: ", m),
        StopLookup::Found(Termination::KillFailed(m)) => ("cannot terminate Relay VM: ", m),
        StopLookup::Found(Termination::ReapFailed(m)) => ("cannot reap Relay VM: ", m),
    };
    let mut message = String::from_str(prefix);
    message.append(m.as_str());
    Err(RelayError::Failed(message))
}

} // verus!
