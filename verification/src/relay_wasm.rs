//! Mode A WASI planning: which backend runs a module, which module or `wpm`
//! package an image names, whether a module file may run, and what a session's
//! guest reports. The host reads files, resolves packages and runs guests; it
//! hands the outcomes here as plain values.
use vstd::prelude::*;
use crate::relay_core::{
    failed, failed_with, fails_with, resolve_backend, wasm_backend, RelayBackend, RelayError, RelayKind,
    RelaySpec,
};
use crate::text::{decimal, ends_with, has_char, push_decimal, str_ends_with, trim_owned, trimmed};
use crate::wasm::decode::{validation_error, wasm_validation_error};

verus! {

/// The largest module file Relay will read.
pub const MAX_MODULE_BYTES: u64 = 536870912;

#[derive(Debug, Clone, PartialEq, Eq)]
pub struct WasmExecutionPlan {
    pub backend: RelayBackend,
    pub module: Option<String>,
    pub package: Option<String>,
}

#[derive(Debug, Clone, PartialEq, Eq)]
pub struct WasmHandle {
    pub id: String,
    pub backend: RelayBackend,
    pub module: Option<String>,
}

/// An optional string seen as its characters.
pub open spec fn text_of(s: Option<String>) -> Option<Seq<char>> {
    match s {
        Some(t) => Some(t@),
        None => None,
    }
}

/// The backend of a WASM spec; any other kind is refused.
pub fn resolve(spec: &RelaySpec) -> (r: Result<RelayBackend, RelayError>)
    ensures
        spec.kind != RelayKind::Wasm ==> fails_with(r, "relay-wasm only handles kind=wasm"@),
        spec.kind == RelayKind::Wasm ==> r == Ok::<RelayBackend, RelayError>(
            wasm_backend(spec.platform, spec.artifact),
        ),
{
    if spec.kind != RelayKind::Wasm {
        return failed("relay-wasm only handles kind=wasm");
    }
    resolve_backend(spec)
}

// ---------------------------------------------------------------------------
// Image names
// ---------------------------------------------------------------------------

/// What a trimmed, non-empty image names.
pub enum ImageRef {
    Absent,
    /// A module path: it holds `/` or ends in `.wasm`.
    Module(String),
    /// A bare `wpm` package name.
    Package(String),
}

pub open spec fn module_like(s: Seq<char>) -> bool {
    has_char(s, '/') || ends_with(s, seq!['.', 'w', 'a', 's', 'm'])
}

/// The image's trimmed text, unless it is absent or blank.
pub open spec fn image_text(image: Option<String>) -> Option<Seq<char>> {
    match image {
        Some(s) => if trimmed(s@).len() == 0 {
            None
        } else {
            Some(trimmed(s@))
        },
        None => None,
    }
}

fn has_slash(s: &str) -> (r: bool)
    ensures
        r == has_char(s@, '/'),
{
    crate::text::contains_char(s, '/')
}

/// Classify `spec.image`: trimmed, blank as absent, a path when it holds `/` or
/// ends in `.wasm`, else a package name.
pub fn classify_image(image: &Option<String>) -> (r: ImageRef)
    ensures
        match image_text(*image) {
            None => r is Absent,
            Some(t) => if module_like(t) {
                r is Module && r->Module_0@ == t
            } else {
                r is Package && r->Package_0@ == t
            },
        },
{
    match image {
        None => ImageRef::Absent,
        Some(s) => {
            let t = trim_owned(s.as_str());
            if t.as_str().unicode_len() == 0 {
                return ImageRef::Absent;
            }
            proof {
                reveal_strlit(".wasm");
                assert(".wasm"@ =~= seq!['.', 'w', 'a', 's', 'm']);
            }
            if has_slash(t.as_str()) || str_ends_with(t.as_str(), ".wasm") {
                ImageRef::Module(t)
            } else {
                ImageRef::Package(t)
            }
        },
    }
}

/// A byte `wpm` accepts in a package name.
pub open spec fn package_char(c: char) -> bool {
    ('a' <= c <= 'z') || ('A' <= c <= 'Z') || ('0' <= c <= '9') || c == '-' || c == '_' || c == '.'
}

pub open spec fn has_substring(s: Seq<char>, part: Seq<char>) -> bool {
    exists|i: int| 0 <= i && i + part.len() <= s.len() && #[trigger] s.subrange(i, i + part.len()) == part
}

/// A name `/wasm/v1` accepts: at most 128 bytes, not a `.deb`, no URL, and only
/// ASCII letters, digits, `-`, `_` and `.`. Where every character is ASCII the
/// byte length is the character count.
pub open spec fn package_name_ok(s: Seq<char>) -> bool {
    &&& s.len() <= 128
    &&& !ends_with(s, seq!['.', 'd', 'e', 'b'])
    &&& !has_substring(s, seq![':', '/', '/'])
    &&& forall|i: int| 0 <= i < s.len() ==> package_char(#[trigger] s[i])
}

fn is_package_char(c: char) -> (r: bool)
    ensures
        r == package_char(c),
{
    ('a' <= c && c <= 'z') || ('A' <= c && c <= 'Z') || ('0' <= c && c <= '9') || c == '-' || c
        == '_' || c == '.'
}

/// Refuse a package name that `/wasm/v1` cannot hold.
pub fn validate_package_name(name: &str) -> (r: Result<(), RelayError>)
    ensures
        package_name_ok(name@) ==> r is Ok,
        !package_name_ok(name@) ==> fails_with(r, "WASM package name is not valid for /wasm/v1"@),
{
    let n = name.unicode_len();
    let mut i: usize = 0;
    while i < n
        invariant
            n == name@.len(),
            i <= n,
            forall|j: int| 0 <= j < i ==> package_char(#[trigger] name@[j]),
        decreases n - i,
    {
        if !is_package_char(name.get_char(i)) {
            return failed("WASM package name is not valid for /wasm/v1");
        }
        i = i + 1;
    }
    proof {
        reveal_strlit(".deb");
        assert(".deb"@ =~= seq!['.', 'd', 'e', 'b']);
        if has_substring(name@, seq![':', '/', '/']) {
            let k = choose|k: int|
                0 <= k && k + 3 <= name@.len() && #[trigger] name@.subrange(k, k + 3) == seq![
                    ':',
                    '/',
                    '/',
                ];
            assert(name@.subrange(k, k + 3)[0] == ':');
            assert(!package_char(name@[k]));
        }
    }
    if n > 128 || str_ends_with(name, ".deb") {
        return failed("WASM package name is not valid for /wasm/v1");
    }
    Ok(())
}

// ---------------------------------------------------------------------------
// Module files
// ---------------------------------------------------------------------------

/// What the host learnt of a module file.
pub struct ModuleProbe {
    /// `(is_file, length)` from the file's metadata, or the host's error text.
    pub metadata: Result<(bool, u64), String>,
    /// The file's bytes, or the host's error text. Read only when the metadata
    /// passed `check_module_metadata`.
    pub contents: Result<Vec<u8>, String>,
}

/// Whether `bytes` begin with the WASM magic `\0asm`.
pub open spec fn wasm_magic(bytes: Seq<u8>) -> bool {
    bytes.len() >= 4 && bytes[0] == 0 && bytes[1] == 0x61 && bytes[2] == 0x73 && bytes[3] == 0x6d
}

/// Whether the metadata allows reading the file.
pub open spec fn metadata_ok(is_file: bool, len: u64) -> bool {
    is_file && 8 <= len <= MAX_MODULE_BYTES
}

/// Whether a module file's bytes may run, or the message that refuses them.
pub open spec fn bytes_check(bytes: Seq<u8>) -> Result<(), Seq<char>> {
    if !wasm_magic(bytes) {
        Err("WASM module has invalid magic"@)
    } else {
        match wasm_validation_error(bytes) {
            Some(e) => Err("invalid WASM module: "@ + e),
            None => Ok(()),
        }
    }
}

/// The module a probe admits at `path`, or the message that refuses it.
pub open spec fn module_check(path: Seq<char>, probe: ModuleProbe) -> Result<Seq<char>, Seq<char>> {
    match probe.metadata {
        Err(e) => Err("cannot stat WASM module: "@ + e@),
        Ok((is_file, len)) => if !metadata_ok(is_file, len) {
            Err("WASM module is not a valid file"@)
        } else {
            match probe.contents {
                Err(e) => Err("cannot read WASM module: "@ + e@),
                Ok(bytes) => match bytes_check(bytes@) {
                    Err(m) => Err(m),
                    Ok(_) => Ok(path),
                },
            }
        },
    }
}

/// Refuse metadata of something that is not a module file of a sane size.
pub fn check_module_metadata(is_file: bool, len: u64) -> (r: Result<(), RelayError>)
    ensures
        metadata_ok(is_file, len) ==> r is Ok,
        !metadata_ok(is_file, len) ==> fails_with(r, "WASM module is not a valid file"@),
{
    if !is_file || len < 8 || len > MAX_MODULE_BYTES {
        return failed("WASM module is not a valid file");
    }
    Ok(())
}

/// Refuse module bytes without the magic or that wasmparser does not validate.
pub fn check_module_bytes(bytes: &[u8]) -> (r: Result<(), RelayError>)
    ensures
        match bytes_check(bytes@) {
            Ok(_) => r is Ok,
            Err(m) => fails_with(r, m),
        },
{
    if bytes.len() < 4 || bytes[0] != 0 || bytes[1] != 0x61 || bytes[2] != 0x73 || bytes[3] != 0x6d {
        return failed("WASM module has invalid magic");
    }
    match validation_error(bytes) {
        Some(e) => failed_with("invalid WASM module: ", e.as_str()),
        None => Ok(()),
    }
}

/// The module at `path`, when what the host learnt of it admits it.
pub fn validate_module_path(path: &str, probe: &ModuleProbe) -> (r: Result<String, RelayError>)
    ensures
        match module_check(path@, *probe) {
            Ok(p) => r is Ok && r->Ok_0@ == p,
            Err(m) => fails_with(r, m),
        },
{
    match &probe.metadata {
        Err(e) => return failed_with("cannot stat WASM module: ", e.as_str()),
        Ok((is_file, len)) => {
            check_module_metadata(*is_file, *len)?;
        },
    }
    match &probe.contents {
        Err(e) => failed_with("cannot read WASM module: ", e.as_str()),
        Ok(bytes) => {
            check_module_bytes(bytes.as_slice())?;
            Ok(String::from_str(path))
        },
    }
}

// ---------------------------------------------------------------------------
// Plans
// ---------------------------------------------------------------------------

/// What the host found for a package name: the path `wpm` resolved it to (or
/// its error), and what it learnt of that path.
pub struct PackageProbe {
    pub resolved: Result<String, RelayError>,
    pub module: ModuleProbe,
}

/// The plan as `(backend, module, package)`.
pub type PlanView = (RelayBackend, Option<Seq<char>>, Option<Seq<char>>);

pub open spec fn plan_view(p: WasmExecutionPlan) -> PlanView {
    (p.backend, text_of(p.module), text_of(p.package))
}

/// The plan for `spec`, given what the host learnt of the image: `Ok` a plan,
/// `Err(Some(m))` a refusal with `Failed(m)`, `Err(None)` the package store's
/// own error handed on unchanged. The module probe speaks of the image when it
/// is a path; the package probe when it is a package name.
pub open spec fn plan_for(spec: RelaySpec, module: ModuleProbe, package: PackageProbe) -> Result<
    PlanView,
    Option<Seq<char>>,
> {
    if spec.kind != RelayKind::Wasm {
        Err(Some("relay-wasm only handles kind=wasm"@))
    } else {
        let backend = wasm_backend(spec.platform, spec.artifact);
        match image_text(spec.image) {
            None => Ok((backend, None, None)),
            Some(t) => if module_like(t) {
                match module_check(t, module) {
                    Ok(p) => Ok((backend, Some(p), None)),
                    Err(m) => Err(Some(m)),
                }
            } else if !package_name_ok(t) {
                Err(Some("WASM package name is not valid for /wasm/v1"@))
            } else {
                match package.resolved {
                    Ok(path) => match module_check(path@, package.module) {
                        Ok(p) => Ok((backend, Some(p), Some(t))),
                        Err(m) => Err(Some(m)),
                    },
                    Err(RelayError::Failed(_)) => Ok((backend, None, Some(t))),
                    Err(_) => Err(None),
                }
            },
        }
    }
}

/// Validate an explicit module or resolve a `wpm` package name to its blob. A
/// package the store does not hold stays named, with no module.
pub fn prepare(spec: &RelaySpec, module: ModuleProbe, package: PackageProbe) -> (r: Result<
    WasmExecutionPlan,
    RelayError,
>)
    ensures
        match plan_for(*spec, module, package) {
            Ok(v) => r is Ok && plan_view(r->Ok_0) == v,
            Err(Some(m)) => fails_with(r, m),
            Err(None) => r is Err && package.resolved is Err && r->Err_0 == package.resolved->Err_0,
        },
{
    let backend = resolve(spec)?;
    match classify_image(&spec.image) {
        ImageRef::Absent => Ok(WasmExecutionPlan { backend, module: None, package: None }),
        ImageRef::Module(path) => {
            let m = validate_module_path(path.as_str(), &module)?;
            Ok(WasmExecutionPlan { backend, module: Some(m), package: None })
        },
        ImageRef::Package(name) => {
            validate_package_name(name.as_str())?;
            match package.resolved {
                Ok(path) => {
                    let m = validate_module_path(path.as_str(), &package.module)?;
                    Ok(WasmExecutionPlan { backend, module: Some(m), package: Some(name) })
                },
                Err(RelayError::Failed(_)) => Ok(
                    WasmExecutionPlan { backend, module: None, package: Some(name) },
                ),
                Err(other) => Err(other),
            }
        },
    }
}

// ---------------------------------------------------------------------------
// Sessions
// ---------------------------------------------------------------------------

/// The module a plan runs: its module, else a refusal that names the package to
/// install, else a refusal for a plan with neither.
pub fn module_to_run(plan: &WasmExecutionPlan) -> (r: Result<String, RelayError>)
    ensures
        plan.module is Some ==> r is Ok && r->Ok_0@ == plan.module->Some_0@,
        plan.module is None && plan.package is Some ==> fails_with(
            r,
            "WASM package `"@ + plan.package->Some_0@ + "` is not installed; run `wpm install "@
                + plan.package->Some_0@ + "` (Mode A /wasm/v1 only)"@,
        ),
        plan.module is None && plan.package is None ==> fails_with(
            r,
            "Relay wasm start requires a .wasm module path or package name"@,
        ),
{
    match (&plan.module, &plan.package) {
        (Some(path), _) => Ok(String::from_str(path.as_str())),
        (None, Some(package)) => {
            let mut message = String::from_str("WASM package `");
            message.append(package.as_str());
            message.append("` is not installed; run `wpm install ");
            message.append(package.as_str());
            message.append("` (Mode A /wasm/v1 only)");
            Err(RelayError::Failed(message))
        },
        (None, None) => failed("Relay wasm start requires a .wasm module path or package name"),
    }
}

/// The id of the `sequence`-th session of process `pid`.
pub open spec fn handle_id_text(pid: nat, sequence: nat) -> Seq<char> {
    "relay-wasm-"@ + decimal(pid) + "-"@ + decimal(sequence)
}

pub fn handle_id(pid: u32, sequence: u64) -> (r: String)
    ensures
        r@ == handle_id_text(pid as nat, sequence as nat),
{
    let mut id = String::from_str("relay-wasm-");
    push_decimal(&mut id, pid as u64);
    id.append("-");
    push_decimal(&mut id, sequence);
    id
}

/// How a guest runs: through the linked `wawona_wasm_run` symbol, or a `wasm`
/// binary at the given path.
#[derive(Debug, Clone, PartialEq, Eq)]
pub enum WasmExecutor {
    LinkedSymbol,
    Binary(String),
}

/// The linked symbol when present, else the binary found on the host, else a
/// planned refusal.
pub fn pick_executor(linked_symbol: bool, binary: Option<String>) -> (r: Result<
    WasmExecutor,
    RelayError,
>)
    ensures
        linked_symbol ==> r == Ok::<WasmExecutor, RelayError>(WasmExecutor::LinkedSymbol),
        !linked_symbol && binary is Some ==> r == Ok::<WasmExecutor, RelayError>(
            WasmExecutor::Binary(binary->Some_0),
        ),
        !linked_symbol && binary is None ==> r == Err::<WasmExecutor, RelayError>(
            RelayError::Planned(
                "Relay wasm execute needs linked wawona_wasm_run or WAWONA_WASM / wasm on PATH",
            ),
        ),
{
    if linked_symbol {
        return Ok(WasmExecutor::LinkedSymbol);
    }
    match binary {
        Some(path) => Ok(WasmExecutor::Binary(path)),
        None => Err(
            RelayError::Planned(
                "Relay wasm execute needs linked wawona_wasm_run or WAWONA_WASM / wasm on PATH",
            ),
        ),
    }
}

/// What Relay keeps of a running session.
#[derive(Debug, Clone, Copy, PartialEq, Eq, Structural)]
pub struct WasmSession {
    pub backend: RelayBackend,
    pub exit_code: Option<i32>,
}

/// A session's state as `status` reports it.
#[derive(Debug, Clone, Copy, PartialEq, Eq, Structural)]
pub enum WasmStatus {
    Running,
    Exited,
}

impl WasmStatus {
    pub fn as_str(self) -> (r: &'static str)
        ensures
            self is Running ==> r@ == "running"@,
            self is Exited ==> r@ == "exited"@,
    {
        match self {
            WasmStatus::Running => "running",
            WasmStatus::Exited => "exited",
        }
    }
}

/// What the host saw when it polled a session's guest.
pub enum GuestPoll {
    /// The guest was collected by an earlier poll.
    Collected,
    Running,
    /// The guest ended, with its exit code where it has one.
    Exited(Option<i32>),
    /// The guest thread returned an error.
    Failed(String),
    /// The guest thread panicked.
    Panicked,
    /// Polling the guest process failed, with the host's message.
    Unreadable(String),
}

/// The status of session `id`, from the session Relay keeps (`None` for an unknown
/// id) and what the host polled of its guest. An exit records its code.
pub fn status(id: &str, session: &mut Option<WasmSession>, poll: GuestPoll) -> (r: Result<
    WasmStatus,
    RelayError,
>)
    ensures
        *old(session) is None ==> fails_with(r, "unknown Relay wasm handle: "@ + id@),
        *old(session) is None ==> *final(session) is None,
        *old(session) is Some ==> match poll {
            GuestPoll::Collected => *final(session) == *old(session) && r == Ok::<
                WasmStatus,
                RelayError,
            >(if (*old(session))->Some_0.exit_code is Some {
                WasmStatus::Exited
            } else {
                WasmStatus::Running
            }),
            GuestPoll::Running => *final(session) == *old(session) && r == Ok::<
                WasmStatus,
                RelayError,
            >(WasmStatus::Running),
            GuestPoll::Exited(code) => *final(session) == Some(
                WasmSession { exit_code: code, ..(*old(session))->Some_0 },
            ) && r == Ok::<WasmStatus, RelayError>(WasmStatus::Exited),
            GuestPoll::Failed(e) => *final(session) == *old(session) && fails_with(
                r,
                "Relay wasm guest failed: "@ + e@,
            ),
            GuestPoll::Panicked => *final(session) == *old(session) && fails_with(
                r,
                "Relay wasm guest thread panicked"@,
            ),
            GuestPoll::Unreadable(e) => *final(session) == *old(session) && fails_with(
                r,
                "cannot poll Relay wasm process: "@ + e@,
            ),
        },
{
    match session {
        None => failed_with("unknown Relay wasm handle: ", id),
        Some(s) => match poll {
            GuestPoll::Collected => if s.exit_code.is_some() {
                Ok(WasmStatus::Exited)
            } else {
                Ok(WasmStatus::Running)
            },
            GuestPoll::Running => Ok(WasmStatus::Running),
            GuestPoll::Exited(code) => {
                s.exit_code = code;
                Ok(WasmStatus::Exited)
            },
            GuestPoll::Failed(e) => failed_with("Relay wasm guest failed: ", e.as_str()),
            GuestPoll::Panicked => failed("Relay wasm guest thread panicked"),
            GuestPoll::Unreadable(e) => failed_with("cannot poll Relay wasm process: ", e.as_str()),
        },
    }
}

/// How a stopped session's guest ended.
pub enum GuestStop {
    /// The guest was collected earlier.
    Collected,
    /// The guest ended, with its exit code where it has one.
    Exited(Option<i32>),
    /// The guest thread returned an error.
    Failed(String),
    /// The guest thread panicked.
    Panicked,
    /// Waiting for the killed guest process failed, with the host's message.
    Unwaitable(String),
}

/// Stop session `id`, given the session Relay removed for it (`None` for an
/// unknown id) and how its guest ended.
pub fn stop(id: &str, session: Option<WasmSession>, ended: GuestStop) -> (r: Result<(), RelayError>)
    ensures
        session is None ==> fails_with(r, "unknown Relay wasm handle: "@ + id@),
        session is Some ==> match ended {
            GuestStop::Collected => r is Ok,
            GuestStop::Exited(_) => r is Ok,
            GuestStop::Failed(e) => fails_with(r, "Relay wasm guest failed: "@ + e@),
            GuestStop::Panicked => fails_with(r, "Relay wasm guest thread panicked"@),
            GuestStop::Unwaitable(e) => fails_with(r, "cannot wait for Relay wasm process: "@ + e@),
        },
{
    if session.is_none() {
        return failed_with("unknown Relay wasm handle: ", id);
    }
    match ended {
        GuestStop::Collected => Ok(()),
        GuestStop::Exited(_) => Ok(()),
        GuestStop::Failed(e) => failed_with("Relay wasm guest failed: ", e.as_str()),
        GuestStop::Panicked => failed("Relay wasm guest thread panicked"),
        GuestStop::Unwaitable(e) => failed_with("cannot wait for Relay wasm process: ", e.as_str()),
    }
}

/// A bare package name stays named until it is installed: where the store does
/// not hold it, the plan keeps the name and has no module; once the store
/// resolves it to a module file that passes, the plan runs that file.
pub proof fn lemma_packages_stay_named(spec: RelaySpec, module: ModuleProbe, package: PackageProbe)
    requires
        spec.kind == RelayKind::Wasm,
        image_text(spec.image) is Some,
        !module_like(image_text(spec.image)->Some_0),
        package_name_ok(image_text(spec.image)->Some_0),
    ensures
        package.resolved is Err && package.resolved->Err_0 is Failed ==> plan_for(
            spec,
            module,
            package,
        ) == Ok::<PlanView, Option<Seq<char>>>(
            (
                wasm_backend(spec.platform, spec.artifact),
                None,
                Some(image_text(spec.image)->Some_0),
            ),
        ),
        package.resolved is Ok && module_check(package.resolved->Ok_0@, package.module) is Ok
            ==> plan_for(spec, module, package) == Ok::<PlanView, Option<Seq<char>>>(
            (
                wasm_backend(spec.platform, spec.artifact),
                Some(package.resolved->Ok_0@),
                Some(image_text(spec.image)->Some_0),
            ),
        ),
{
}

/// A module path is checked before anything runs: the plan has a module exactly
/// when the module file passes, and then it is the image's own path.
pub proof fn lemma_module_paths_are_checked(spec: RelaySpec, module: ModuleProbe, package: PackageProbe)
    requires
        spec.kind == RelayKind::Wasm,
        image_text(spec.image) is Some,
        module_like(image_text(spec.image)->Some_0),
    ensures
        plan_for(spec, module, package) is Ok <==> module_check(image_text(spec.image)->Some_0, module)
            is Ok,
        plan_for(spec, module, package) is Ok ==> plan_for(spec, module, package)->Ok_0.1 == Some(
            image_text(spec.image)->Some_0,
        ),
{
}

} // verus!
