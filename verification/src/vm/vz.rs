//! Virtualization.framework guests on macOS: the checks before a launch, where a
//! machine's state lives, the launcher's command line, and the readiness and
//! session verdicts. The host creates files, runs the launcher and polls it.
use vstd::prelude::*;
use vstd::string::StringSliceAdditionalSpecFns;
use crate::relay_core::{
    failed, failed_with, fails_with, failure, trust_check, GuestManifest,
    RelayBackend, RelayError, RelayKind, RelayRuntimeResources, RelaySpec,
};
use crate::relay_oci::container_id_ok;
use crate::text::{decimal, has_char, join_path, path_join, push_decimal, starts_with_chars, str_starts_with};
use crate::vm::launch::RelayHandle;

verus! {

/// Guest waypipe listens on this vsock port; the host dials it.
pub const WAYPIPE_VSOCK_PORT: u32 = 1024;

/// The virtiofs tag of an OCI runtime bundle shared into the guest.
pub const OCI_SHARE_TAG: &'static str = "oci-bundle";

/// What the guest prints on its console once it is ready.
pub const READY_MARKER: &'static str = "WAWONA_RELAY_READY=1";

/// How long a launch waits for the guest, in milliseconds.
pub const READY_TIMEOUT_MS: u64 = 90000;

/// How often the launch polls, in milliseconds.
pub const READY_POLL_MS: u64 = 50;

/// The console tail shown with a failed launch, in bytes.
pub const RECENT_LOG_BYTES: usize = 16384;

/// A Unix socket path must stay below this many bytes.
pub const MAX_ENDPOINT_BYTES: usize = 100;

// ---------------------------------------------------------------------------
// Before the launch
// ---------------------------------------------------------------------------

/// Whether the launcher and state paths can be used.
pub open spec fn resources_check(r: RelayRuntimeResources, launcher_is_file: bool) -> Result<(), Seq<char>> {
    if !launcher_is_file {
        Err("Relay VZ launcher is not a regular file"@)
    } else if r.state_directory@.len() == 0 || has_char(r.launcher@, '\0') || has_char(
        r.state_directory@,
        '\0',
    ) {
        Err("Relay VZ runtime resources contain an invalid path"@)
    } else {
        Ok(())
    }
}

/// The checks before anything touches the disk: runtime resources, the guest
/// manifest, and its trust.
pub open spec fn preflight_check(spec: RelaySpec, launcher_is_file: bool, signing_bytes: Seq<u8>) -> Result<
    (),
    Seq<char>,
> {
    match spec.resources {
        None => Err("Relay VZ runtime resources are missing"@),
        Some(r) => match resources_check(r, launcher_is_file) {
            Err(m) => Err(m),
            Ok(_) => match spec.guest {
                None => Err("Relay VZ requires a guest manifest"@),
                Some(m) => trust_check(
                    m.signature,
                    signing_bytes,
                    r.trusted_guest_keys.pairs(),
                    r.allow_unsigned_guest,
                ),
            },
        },
    }
}

/// Check the runtime resources; whether the launcher is a regular file is the
/// host's finding.
pub fn check_vz_resources(resources: &RelayRuntimeResources, launcher_is_file: bool) -> (r: Result<
    (),
    RelayError,
>)
    ensures
        match resources_check(*resources, launcher_is_file) {
            Ok(_) => r is Ok,
            Err(m) => fails_with(r, m),
        },
{
    if !launcher_is_file {
        return failed("Relay VZ launcher is not a regular file");
    }
    if resources.state_directory.as_str().unicode_len() == 0 || crate::text::contains_char(
        resources.launcher.as_str(),
        '\0',
    ) || crate::text::contains_char(resources.state_directory.as_str(), '\0') {
        return failed("Relay VZ runtime resources contain an invalid path");
    }
    Ok(())
}

/// The checks of a VZ start before any file is touched; `signing_bytes` is the
/// manifest's canonical encoding without its signature.
pub fn vz_preflight(spec: &RelaySpec, launcher_is_file: bool, signing_bytes: &[u8]) -> (r: Result<
    (),
    RelayError,
>)
    ensures
        match preflight_check(*spec, launcher_is_file, signing_bytes@) {
            Ok(_) => r is Ok,
            Err(m) => fails_with(r, m),
        },
{
    let resources = match &spec.resources {
        None => return failed("Relay VZ runtime resources are missing"),
        Some(r) => r,
    };
    check_vz_resources(resources, launcher_is_file)?;
    let manifest = match &spec.guest {
        None => return failed("Relay VZ requires a guest manifest"),
        Some(m) => m,
    };
    let r = manifest.verify_trust(
        signing_bytes,
        &resources.trusted_guest_keys,
        resources.allow_unsigned_guest,
    );
    proof {
        if r is Err {
            assert(failure(r) == Err::<(), Seq<char>>(crate::relay_core::error_text(r->Err_0)));
        }
    }
    r
}

/// What the host's `canonicalize` gave for the guest directory and for the
/// artifact path inside it: the path, or the error's text.
pub struct CanonicalPaths {
    pub root: Result<String, String>,
    pub candidate: Result<String, String>,
}

/// Whether canonical path `c` lies in canonical directory `r`, component by
/// component as `Path::starts_with` compares them.
pub open spec fn within(c: Seq<char>, r: Seq<char>) -> bool {
    c == r || (starts_with_chars(c, r) && c.len() > r.len() && ((r.len() > 0 && r.last() == '/')
        || c[r.len() as int] == '/'))
}

/// Where an artifact's path resolves: an absolute path stands; a relative one
/// resolves in the guest directory and must stay inside it.
pub open spec fn artifact_location(path: Seq<char>, guest_directory: Option<Seq<char>>, c: CanonicalPaths) -> Result<
    Seq<char>,
    Seq<char>,
> {
    if path.len() > 0 && path[0] == '/' {
        Ok(path)
    } else {
        match guest_directory {
            None => Err("relative guest artifact requires guest_directory"@),
            Some(_) => match c.root {
                Err(e) => Err("cannot resolve guest bundle directory: "@ + e@),
                Ok(root) => match c.candidate {
                    Err(e) => Err("cannot resolve guest artifact: "@ + e@),
                    Ok(candidate) => if !within(candidate@, root@) {
                        Err("guest artifact escapes the guest bundle"@)
                    } else {
                        Ok(candidate@)
                    },
                },
            },
        }
    }
}

pub open spec fn text_option(s: Option<String>) -> Option<Seq<char>> {
    match s {
        Some(t) => Some(t@),
        None => None,
    }
}

/// Resolve an artifact's path against the guest directory, from what the host
/// canonicalized.
pub fn resolve_artifact_path(path: &str, guest_directory: &Option<String>, canonical: &CanonicalPaths) -> (r:
    Result<String, RelayError>)
    ensures
        match artifact_location(path@, text_option(*guest_directory), *canonical) {
            Ok(p) => r is Ok && r->Ok_0@ == p,
            Err(m) => fails_with(r, m),
        },
{
    if path.unicode_len() > 0 && path.get_char(0) == '/' {
        return Ok(String::from_str(path));
    }
    if guest_directory.is_none() {
        return failed("relative guest artifact requires guest_directory");
    }
    let root = match &canonical.root {
        Err(e) => return failed_with("cannot resolve guest bundle directory: ", e.as_str()),
        Ok(root) => root,
    };
    let candidate = match &canonical.candidate {
        Err(e) => return failed_with("cannot resolve guest artifact: ", e.as_str()),
        Ok(c) => c,
    };
    let c = candidate.as_str();
    let rt = root.as_str();
    let n = c.unicode_len();
    let m = rt.unicode_len();
    let inside = crate::text::str_eq(c, rt) || (n > m && str_starts_with(c, rt) && ((m > 0
        && rt.get_char(m - 1) == '/') || c.get_char(m) == '/'));
    if !inside {
        return failed("guest artifact escapes the guest bundle");
    }
    Ok(String::from_str(c))
}

/// The key of a machine's state directory: its validated id, or an ephemeral
/// key for a spec without one.
pub open spec fn machine_key(machine_id: Option<String>, next_session: u64) -> Result<Seq<char>, Seq<char>> {
    match machine_id {
        None => Ok("ephemeral-"@ + decimal(next_session as nat)),
        Some(id) => if container_id_ok(id@) {
            Ok(id@)
        } else {
            Err("Relay machine id is invalid"@)
        },
    }
}

pub fn machine_state_key(machine_id: &Option<String>, next_session: u64) -> (r: Result<
    String,
    RelayError,
>)
    ensures
        match machine_key(*machine_id, next_session) {
            Ok(k) => r is Ok && r->Ok_0@ == k,
            Err(m) => fails_with(r, m),
        },
{
    match machine_id {
        None => {
            let mut key = String::from_str("ephemeral-");
            push_decimal(&mut key, next_session);
            Ok(key)
        },
        Some(id) => {
            if !crate::relay_oci::id_is_valid(id.as_str()) {
                return failed("Relay machine id is invalid");
            }
            Ok(String::from_str(id.as_str()))
        },
    }
}

/// What the host found of a session already registered for the same machine.
pub enum ExistingSession {
    Running,
    Exited,
    /// Polling it failed, with the host's message.
    Unreadable(String),
}

/// Whether a launch may go on past an existing session of the same machine:
/// `Ok(true)` when an exited one is to be removed first.
pub fn recover_stale_session(existing: Option<ExistingSession>) -> (r: Result<bool, RelayError>)
    ensures
        match existing {
            None => r == Ok::<bool, RelayError>(false),
            Some(ExistingSession::Exited) => r == Ok::<bool, RelayError>(true),
            Some(ExistingSession::Running) => fails_with(r, "Relay machine is already running"@),
            Some(ExistingSession::Unreadable(e)) => fails_with(
                r,
                "cannot inspect existing Relay VM: "@ + e@,
            ),
        },
{
    match existing {
        None => Ok(false),
        Some(ExistingSession::Exited) => Ok(true),
        Some(ExistingSession::Running) => failed("Relay machine is already running"),
        Some(ExistingSession::Unreadable(e)) => failed_with(
            "cannot inspect existing Relay VM: ",
            e.as_str(),
        ),
    }
}

// ---------------------------------------------------------------------------
// The launch
// ---------------------------------------------------------------------------

/// Where one VZ session keeps its files, and its handle id.
#[derive(Debug, Clone, PartialEq, Eq)]
pub struct VzSessionPaths {
    pub id: String,
    pub directory: String,
    pub disk: String,
    pub endpoint: String,
    pub log: String,
}

pub open spec fn session_directory(state_directory: Seq<char>, machine: Seq<char>) -> Seq<char> {
    path_join(path_join(state_directory, "machines"@), machine)
}

/// The paths of the `sequence`-th session of process `pid` for `machine`.
pub fn session_paths(state_directory: &str, machine: &str, pid: u32, sequence: u64) -> (r: VzSessionPaths)
    ensures
        r.id@ == "relay-vz-"@ + decimal(pid as nat) + "-"@ + decimal(sequence as nat),
        r.directory@ == session_directory(state_directory@, machine@),
        r.disk@ == path_join(r.directory@, "rootfs.img"@),
        r.endpoint@ == path_join(r.directory@, "wayland.sock"@),
        r.log@ == path_join(r.directory@, "console.log"@),
{
    let mut id = String::from_str("relay-vz-");
    push_decimal(&mut id, pid as u64);
    id.append("-");
    push_decimal(&mut id, sequence);
    let machines = join_path(state_directory, "machines");
    let directory = join_path(machines.as_str(), machine);
    let disk = join_path(directory.as_str(), "rootfs.img");
    let endpoint = join_path(directory.as_str(), "wayland.sock");
    let log = join_path(directory.as_str(), "console.log");
    VzSessionPaths { id, directory, disk, endpoint, log }
}

/// Refuse a Wayland endpoint whose path a Unix socket cannot hold.
pub fn check_endpoint(endpoint: &str) -> (r: Result<(), RelayError>)
    ensures
        (endpoint.spec_bytes().len() as usize) < MAX_ENDPOINT_BYTES ==> r is Ok,
        (endpoint.spec_bytes().len() as usize) >= MAX_ENDPOINT_BYTES ==> fails_with(
            r,
            "Relay Wayland endpoint exceeds the Unix socket path limit"@,
        ),
{
    if endpoint.len() >= MAX_ENDPOINT_BYTES {
        return failed("Relay Wayland endpoint exceeds the Unix socket path limit");
    }
    Ok(())
}

/// What a persisted disk allows: reuse it, create it from the base image, or
/// nothing when it is no longer a file of at least the base's size.
#[derive(Debug, Clone, Copy, PartialEq, Eq, Structural)]
pub enum DiskAction {
    Reuse,
    Create,
}

/// What to do with a session's writable disk, from what the host found of it:
/// `None` when it does not exist, else whether it is a file and its length.
pub fn disk_action(existing: Option<(bool, u64)>, minimum_bytes: u64) -> (r: Result<DiskAction, RelayError>)
    ensures
        match existing {
            None => r == Ok::<DiskAction, RelayError>(DiskAction::Create),
            Some((is_file, len)) => if is_file && len >= minimum_bytes {
                r == Ok::<DiskAction, RelayError>(DiskAction::Reuse)
            } else {
                fails_with(r, "persisted VM disk is invalid or smaller than its immutable base"@)
            },
        },
{
    match existing {
        None => Ok(DiskAction::Create),
        Some((is_file, len)) => if !is_file || len < minimum_bytes {
            failed("persisted VM disk is invalid or smaller than its immutable base")
        } else {
            Ok(DiskAction::Reuse)
        },
    }
}

/// The OCI bundle a container shares into the guest, given whether the host
/// found a runtime bundle at the spec's image; other kinds share nothing.
pub fn container_share(spec: &RelaySpec, is_runtime_bundle: bool) -> (r: Result<Option<String>, RelayError>)
    ensures
        spec.kind != RelayKind::Container ==> r is Ok && r->Ok_0 is None,
        spec.kind == RelayKind::Container && spec.image is None ==> fails_with(
            r,
            "Relay container start requires a materialized OCI bundle"@,
        ),
        spec.kind == RelayKind::Container && spec.image is Some && !is_runtime_bundle ==> fails_with(
            r,
            "Relay OCI share is not a runtime bundle (need config.json + rootfs/)"@,
        ),
        spec.kind == RelayKind::Container && spec.image is Some && is_runtime_bundle ==> r is Ok
            && r->Ok_0 is Some && r->Ok_0->Some_0@ == spec.image->Some_0@,
{
    if spec.kind != RelayKind::Container {
        return Ok(None);
    }
    match &spec.image {
        None => failed("Relay container start requires a materialized OCI bundle"),
        Some(bundle) => if !is_runtime_bundle {
            failed("Relay OCI share is not a runtime bundle (need config.json + rootfs/)")
        } else {
            Ok(Some(String::from_str(bundle.as_str())))
        },
    }
}

pub open spec fn texts(v: Seq<String>) -> Seq<Seq<char>> {
    v.map_values(|s: String| s@)
}

/// The launcher's arguments: kernel, initrd, disk, command line, memory in MiB,
/// the vsock port, the Wayland endpoint, then the container share, if any.
pub open spec fn launcher_command(
    kernel: Seq<char>,
    initrd: Seq<char>,
    disk: Seq<char>,
    command_line: Seq<char>,
    memory_bytes: u64,
    endpoint: Seq<char>,
    share: Option<Seq<char>>,
) -> Seq<Seq<char>> {
    let base = seq![
        "--kernel"@, kernel, "--initrd"@, initrd, "--disk"@, disk, "--cmdline"@, command_line,
        "--memory-mib"@, decimal((memory_bytes / 1048576) as nat), "--vsock-connect"@,
        decimal(WAYPIPE_VSOCK_PORT as nat), "--listen-unix"@, endpoint,
    ];
    match share {
        Some(bundle) => base + seq!["--share-dir"@, bundle, "--share-tag"@, OCI_SHARE_TAG@],
        None => base,
    }
}

fn push_text(out: &mut Vec<String>, s: &str)
    ensures
        texts(final(out)@) == texts(old(out)@).push(s@),
{
    let ghost before = out@;
    out.push(String::from_str(s));
    assert(texts(out@) =~= texts(before).push(s@));
}

fn decimal_text(n: u64) -> (r: String)
    ensures
        r@ == decimal(n as nat),
{
    let mut s = String::new();
    assert(s@ =~= Seq::<char>::empty());
    push_decimal(&mut s, n);
    assert(s@ =~= decimal(n as nat));
    s
}

/// The launcher's arguments for a manifest whose artifacts are resolved; a VZ
/// guest needs an initrd.
pub fn launcher_args(manifest: &GuestManifest, disk: &str, endpoint: &str, share: &Option<String>) -> (r:
    Result<Vec<String>, RelayError>)
    ensures
        manifest.initrd is None ==> fails_with(r, "Relay VZ requires a guest initrd"@),
        manifest.initrd is Some ==> r is Ok && texts(r->Ok_0@) == launcher_command(
            manifest.kernel.path@,
            manifest.initrd->Some_0.path@,
            disk@,
            manifest.command_line@,
            manifest.memory_bytes,
            endpoint@,
            text_option(*share),
        ),
{
    let initrd = match &manifest.initrd {
        None => return failed("Relay VZ requires a guest initrd"),
        Some(i) => i,
    };
    let mut args: Vec<String> = Vec::new();
    assert(texts(args@) =~= Seq::<Seq<char>>::empty());
    push_text(&mut args, "--kernel");
    push_text(&mut args, manifest.kernel.path.as_str());
    push_text(&mut args, "--initrd");
    push_text(&mut args, initrd.path.as_str());
    push_text(&mut args, "--disk");
    push_text(&mut args, disk);
    push_text(&mut args, "--cmdline");
    push_text(&mut args, manifest.command_line.as_str());
    push_text(&mut args, "--memory-mib");
    let memory = decimal_text(manifest.memory_bytes / 1048576);
    push_text(&mut args, memory.as_str());
    push_text(&mut args, "--vsock-connect");
    let port = decimal_text(WAYPIPE_VSOCK_PORT as u64);
    push_text(&mut args, port.as_str());
    push_text(&mut args, "--listen-unix");
    push_text(&mut args, endpoint);
    match share {
        Some(bundle) => {
            push_text(&mut args, "--share-dir");
            push_text(&mut args, bundle.as_str());
            push_text(&mut args, "--share-tag");
            push_text(&mut args, OCI_SHARE_TAG);
        },
        None => {},
    }
    Ok(args)
}

/// What the host saw on one readiness poll of the launcher.
pub enum LauncherPoll {
    /// The launcher still runs; its console log so far, read as text.
    Running(String),
    /// The launcher exited, with its status text.
    Exited(String),
    /// Polling the launcher failed, with the host's message.
    Unreadable(String),
}

/// The next step of waiting for readiness.
#[derive(Debug)]
pub enum ReadyStep {
    Ready,
    /// Poll again after `READY_POLL_MS`.
    Wait,
    /// Kill the launcher and fail with this error.
    Fail(RelayError),
}

pub open spec fn has_text(s: Seq<char>, part: Seq<char>) -> bool {
    exists|i: int| 0 <= i && i + part.len() <= s.len() && #[trigger] s.subrange(i, i + part.len()) == part
}

/// Whether readiness is reached, still awaited, or failed: `recent` is the
/// console's tail.
pub open spec fn ready_verdict(poll: LauncherPoll, elapsed_ms: u64, recent: Seq<char>) -> Result<bool, Seq<char>> {
    match poll {
        LauncherPoll::Unreadable(e) => Err("cannot inspect Relay VZ process: "@ + e@),
        LauncherPoll::Exited(status) => Err(
            "Relay VZ launcher exited before guest readiness: "@ + status@ + "\n"@ + recent,
        ),
        LauncherPoll::Running(log) => if has_text(log@, READY_MARKER@) {
            Ok(true)
        } else if elapsed_ms >= READY_TIMEOUT_MS {
            Err("Relay VZ guest readiness timed out\n"@ + recent)
        } else {
            Ok(false)
        },
    }
}

/// One step of waiting for the guest: ready once its console shows the marker,
/// failed when the launcher exits, cannot be polled, or the wait times out.
pub fn readiness_step(poll: LauncherPoll, elapsed_ms: u64, recent: &str) -> (r: ReadyStep)
    ensures
        match ready_verdict(poll, elapsed_ms, recent@) {
            Ok(true) => r is Ready,
            Ok(false) => r is Wait,
            Err(m) => r is Fail && r->Fail_0 is Failed && crate::relay_core::error_text(r->Fail_0) == m,
        },
{
    match poll {
        LauncherPoll::Unreadable(e) => {
            let mut message = String::from_str("cannot inspect Relay VZ process: ");
            message.append(e.as_str());
            ReadyStep::Fail(RelayError::Failed(message))
        },
        LauncherPoll::Exited(status) => {
            let mut message = String::from_str("Relay VZ launcher exited before guest readiness: ");
            message.append(status.as_str());
            message.append("\n");
            message.append(recent);
            ReadyStep::Fail(RelayError::Failed(message))
        },
        LauncherPoll::Running(log) => {
            if crate::bench::contains_text(log.as_str(), READY_MARKER) {
                proof {
                    assert(crate::bench::has_text(log@, READY_MARKER@) == has_text(log@, READY_MARKER@));
                }
                return ReadyStep::Ready;
            }
            if elapsed_ms >= READY_TIMEOUT_MS {
                let mut message = String::from_str("Relay VZ guest readiness timed out\n");
                message.append(recent);
                return ReadyStep::Fail(RelayError::Failed(message));
            }
            ReadyStep::Wait
        },
    }
}

/// Where the console tail shown with a failure begins.
pub fn recent_log_start(len: usize) -> (r: usize)
    ensures
        r == if len > RECENT_LOG_BYTES {
            len - RECENT_LOG_BYTES
        } else {
            0
        },
{
    if len > RECENT_LOG_BYTES {
        len - RECENT_LOG_BYTES
    } else {
        0
    }
}

/// The handle of a ready VZ session.
pub fn vz_handle(id: String, kind: RelayKind, endpoint: String) -> (r: RelayHandle)
    ensures
        r.id == id,
        r.backend == RelayBackend::Vz,
        r.kind == kind,
        r.wayland_endpoint == Some(endpoint),
        r.frame is None,
        r.frame_width == 0,
        r.frame_height == 0,
{
    RelayHandle {
        id,
        backend: RelayBackend::Vz,
        kind,
        wayland_endpoint: Some(endpoint),
        frame: None,
        frame_width: 0,
        frame_height: 0,
    }
}

/// A VZ guest boots from an initrd; refuse a manifest without one.
pub fn require_initrd(manifest: &GuestManifest) -> (r: Result<(), RelayError>)
    ensures
        manifest.initrd is Some ==> r is Ok,
        manifest.initrd is None ==> fails_with(r, "Relay VZ requires a guest initrd"@),
{
    if manifest.initrd.is_none() {
        return failed("Relay VZ requires a guest initrd");
    }
    Ok(())
}

} // verus!
