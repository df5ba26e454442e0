//! Relay spec and backend table.
//!
//! Wawona UI never picks a hypervisor. Relay resolves the backend: VZ on
//! macOS, KVM on Linux, `IosHv` on Mode B iOS/iPadOS when the host probe
//! matches the public HV window, otherwise static CPU. Wasm is Pulley on
//! Apple mobile regardless.
pub mod ios_hv;

use crate::relay_core::ios_hv::{
    host_opt, probe_ios_hv, probe_reason, IosHvHost, IosHvReason,
};
use crate::text::{
    blank, decimal, has_char, is_blank, contains_char, str_eq, with_decimal,
};
use vstd::prelude::*;

verus! {

#[derive(Debug, Clone, Copy, PartialEq, Eq, Structural)]
pub enum RelayKind {
    Vm,
    Container,
    Wasm,
}

#[derive(Debug, Clone, Copy, PartialEq, Eq, Structural)]
pub enum RelayPlatform {
    Macos,
    Ios,
    Ipados,
    Tvos,
    Watchos,
    Visionos,
    Android,
    Linux,
}

/// The engine that runs a spec. `Unselected` is the absence of a backend.
#[derive(Debug, Clone, Copy, PartialEq, Eq, Structural)]
pub enum RelayBackend {
    Unselected,
    Vz,
    KvmCloudHypervisor,
    KvmCrosvm,
    AvfLab,
    StaticCpu,
    ModeBJit,
    IosHv,
    WasmPulley,
    WasmCranelift,
}

pub open spec fn backend_text(b: RelayBackend) -> Seq<char> {
    match b {
        RelayBackend::Unselected => "none"@,
        RelayBackend::Vz => "vz"@,
        RelayBackend::KvmCloudHypervisor => "kvm-ch"@,
        RelayBackend::KvmCrosvm => "kvm-crosvm"@,
        RelayBackend::AvfLab => "avf-lab"@,
        RelayBackend::StaticCpu => "static-cpu"@,
        RelayBackend::ModeBJit => "mode-b-jit"@,
        RelayBackend::IosHv => "ios-hv"@,
        RelayBackend::WasmPulley => "wasm-pulley"@,
        RelayBackend::WasmCranelift => "wasm-cranelift"@,
    }
}

impl RelayBackend {
    pub fn as_str(self) -> (r: &'static str)
        ensures
            r@ == backend_text(self),
    {
        match self {
            RelayBackend::Unselected => "none",
            RelayBackend::Vz => "vz",
            RelayBackend::KvmCloudHypervisor => "kvm-ch",
            RelayBackend::KvmCrosvm => "kvm-crosvm",
            RelayBackend::AvfLab => "avf-lab",
            RelayBackend::StaticCpu => "static-cpu",
            RelayBackend::ModeBJit => "mode-b-jit",
            RelayBackend::IosHv => "ios-hv",
            RelayBackend::WasmPulley => "wasm-pulley",
            RelayBackend::WasmCranelift => "wasm-cranelift",
        }
    }

    /// QEMU and UTM are never Relay backends.
    pub fn is_qemu(self) -> (r: bool)
        ensures
            !r,
    {
        false
    }
}

/// Artifact class is which binary the user installed. Never an in-app toggle.
#[derive(Debug, Clone, Copy, PartialEq, Eq, Structural)]
pub enum ArtifactClass {
    ModeA,
    ModeB,
}

impl Default for ArtifactClass {
    fn default() -> (r: Self)
        ensures
            r == ArtifactClass::ModeA,
    {
        ArtifactClass::ModeA
    }
}

#[derive(Debug)]
pub enum RelayError {
    Forbidden(&'static str),
    Planned(&'static str),
    Failed(String),
}

/// The text a `RelayError` displays.
pub open spec fn error_text(e: RelayError) -> Seq<char> {
    match e {
        RelayError::Forbidden(m) => m@,
        RelayError::Planned(m) => m@,
        RelayError::Failed(m) => m@,
    }
}

/// A result whose error is `Failed`, seen as its value or its message.
pub open spec fn failure<T>(r: Result<T, RelayError>) -> Result<T, Seq<char>> {
    match r {
        Ok(v) => Ok(v),
        Err(e) => Err(error_text(e)),
    }
}

pub open spec fn only_failed<T>(r: Result<T, RelayError>) -> bool {
    r is Err ==> r->Err_0 is Failed
}

/// The C ABI's status codes.
pub const FFI_OK: i32 = 0;

pub const FFI_FORBIDDEN: i32 = -1;

pub const FFI_PLANNED: i32 = -2;

pub const FFI_FAILED: i32 = -3;

pub const FFI_BAD_ARGUMENT: i32 = -4;

impl RelayError {
    /// The C ABI status code of this error.
    pub fn ffi_code(&self) -> (r: i32)
        ensures
            self is Forbidden ==> r == FFI_FORBIDDEN,
            self is Planned ==> r == FFI_PLANNED,
            self is Failed ==> r == FFI_FAILED,
    {
        match self {
            RelayError::Forbidden(_) => FFI_FORBIDDEN,
            RelayError::Planned(_) => FFI_PLANNED,
            RelayError::Failed(_) => FFI_FAILED,
        }
    }

    pub fn qemu() -> (r: Self)
        ensures
            r == RelayError::Forbidden("QEMU and UTM are not Relay backends"),
    {
        RelayError::Forbidden("QEMU and UTM are not Relay backends")
    }

    /// The message this error displays.
    pub fn message(&self) -> (r: String)
        ensures
            r@ == error_text(*self),
    {
        match self {
            RelayError::Forbidden(m) => String::from_str(m),
            RelayError::Planned(m) => String::from_str(m),
            RelayError::Failed(m) => String::from_str(m.as_str()),
        }
    }
}

fn fail<T>(message: &str) -> (r: Result<T, RelayError>)
    ensures
        r is Err,
        only_failed(r),
        failure(r) == Err::<T, Seq<char>>(message@),
{
    Err(RelayError::Failed(String::from_str(message)))
}

fn fail_string<T>(message: String) -> (r: Result<T, RelayError>)
    ensures
        r is Err,
        only_failed(r),
        failure(r) == Err::<T, Seq<char>>(message@),
{
    Err(RelayError::Failed(message))
}

/// `r` fails with `Failed(message)`.
pub open spec fn fails_with<T>(r: Result<T, RelayError>, message: Seq<char>) -> bool {
    &&& r is Err
    &&& r->Err_0 is Failed
    &&& error_text(r->Err_0) == message
}

/// `r` is what the check `c` answers: `Ok` where it passes, else `Failed` with
/// its message.
pub open spec fn answers<T>(r: Result<T, RelayError>, c: Result<T, Seq<char>>) -> bool {
    match c {
        Ok(v) => r is Ok && r->Ok_0 == v,
        Err(m) => fails_with(r, m),
    }
}

pub(crate) fn failed<T>(message: &str) -> (r: Result<T, RelayError>)
    ensures
        fails_with(r, message@),
{
    Err(RelayError::Failed(String::from_str(message)))
}

pub(crate) fn failed_with<T>(prefix: &str, detail: &str) -> (r: Result<T, RelayError>)
    ensures
        fails_with(r, prefix@ + detail@),
{
    let mut message = String::from_str(prefix);
    message.append(detail);
    Err(RelayError::Failed(message))
}

// ---------------------------------------------------------------------------
// Page geometry
// ---------------------------------------------------------------------------

/// Page geometry used by the guest's MMU and virtio memory map: 4 KiB or 16 KiB.
#[derive(Debug, Clone, Copy, PartialEq, Eq, Structural)]
pub struct GuestPageSize(pub u32);

pub open spec fn page_size_check(bytes: u32) -> Result<u32, Seq<char>> {
    if bytes == 4096 || bytes == 16384 {
        Ok(bytes)
    } else {
        Err("Relay supports 4 KiB or 16 KiB pages, got "@ + decimal(bytes as nat))
    }
}

/// `address & (size - 1) == 0`, which for a power of two size is `address % size == 0`.
pub open spec fn aligned_to(address: u64, size: u32) -> bool {
    address & ((size - 1) as u64) == 0
}

proof fn lemma_page_alignment(address: u64)
    ensures
        aligned_to(address, 4096) <==> address % 4096 == 0,
        aligned_to(address, 16384) <==> address % 16384 == 0,
{
    assert(address & 4095 == 0 <==> address % 4096 == 0) by (bit_vector);
    assert(address & 16383 == 0 <==> address % 16384 == 0) by (bit_vector);
}

/// 4 KiB and 16 KiB alignment are remainders by the page size.
pub proof fn lemma_page_alignment_pub(address: u64)
    ensures
        aligned_to(address, 4096) <==> address % 4096 == 0,
        aligned_to(address, 16384) <==> address % 16384 == 0,
{
    lemma_page_alignment(address);
}

impl GuestPageSize {
    pub fn four_kib() -> (r: Self)
        ensures
            r.0 == 4096,
    {
        GuestPageSize(4096)
    }

    pub fn sixteen_kib() -> (r: Self)
        ensures
            r.0 == 16384,
    {
        GuestPageSize(16384)
    }

    /// Resolve a requested size, or the host page size the caller observed
    /// when the request is absent.
    /// The guest page size requested, or the host's when none is; only 4 KiB
    /// and 16 KiB are accepted.
    pub open spec fn resolve_spec(requested: Option<u32>, host_page_bytes: u32) -> Result<
        GuestPageSize,
        Seq<char>,
    > {
        match page_size_check(
            match requested {
                Some(b) => b,
                None => host_page_bytes,
            },
        ) {
            Ok(b) => Ok(GuestPageSize(b)),
            Err(m) => Err(m),
        }
    }

    pub fn resolve(requested: Option<u32>, host_page_bytes: u32) -> (r: Result<Self, RelayError>)
        ensures
            only_failed(r),
            failure(r) == GuestPageSize::resolve_spec(requested, host_page_bytes),
    {
        let bytes = match requested {
            Some(b) => b,
            None => host_page_bytes,
        };
        if bytes == 4096 {
            Ok(GuestPageSize::four_kib())
        } else if bytes == 16384 {
            Ok(GuestPageSize::sixteen_kib())
        } else {
            fail_string(with_decimal("Relay supports 4 KiB or 16 KiB pages, got ", bytes as u64))
        }
    }

    pub fn bytes(self) -> (r: usize)
        ensures
            r == self.0,
    {
        self.0 as usize
    }

    pub fn is_aligned(self, address: u64) -> (r: bool)
        requires
            self.0 > 0,
        ensures
            r == aligned_to(address, self.0),
            self.0 == 4096 || self.0 == 16384 ==> (r <==> address % (self.0 as u64) == 0),
    {
        proof {
            lemma_page_alignment(address);
        }
        address & (self.0 as u64 - 1) == 0
    }
}

/// Host process page size: 4 KiB or 16 KiB.
#[derive(Debug, Clone, Copy, PartialEq, Eq, Structural)]
pub struct HostPageSize(pub u32);

pub open spec fn host_page_check(bytes: u32) -> Result<u32, Seq<char>> {
    if bytes == 4096 || bytes == 16384 {
        Ok(bytes)
    } else {
        Err("Relay host page size must be 4 KiB or 16 KiB, got "@ + decimal(bytes as nat))
    }
}

impl HostPageSize {
    pub fn four_kib() -> (r: Self)
        ensures
            r.0 == 4096,
    {
        HostPageSize(4096)
    }

    pub fn sixteen_kib() -> (r: Self)
        ensures
            r.0 == 16384,
    {
        HostPageSize(16384)
    }

    /// Classify the page size the host reported: 16 KiB stays 16 KiB, anything
    /// else is treated as 4 KiB.
    pub fn detect(host_page_bytes: u32) -> (r: Self)
        ensures
            r.0 == (if host_page_bytes == 16384 { 16384u32 } else { 4096u32 }),
    {
        if host_page_bytes == 16384 {
            HostPageSize::sixteen_kib()
        } else {
            HostPageSize::four_kib()
        }
    }

    pub fn resolve(bytes: u32) -> (r: Result<Self, RelayError>)
        ensures
            only_failed(r),
            failure(r) == (match host_page_check(bytes) {
                Ok(b) => Ok(HostPageSize(b)),
                Err(m) => Err(m),
            }),
    {
        if bytes == 4096 {
            Ok(HostPageSize::four_kib())
        } else if bytes == 16384 {
            Ok(HostPageSize::sixteen_kib())
        } else {
            fail_string(
                with_decimal("Relay host page size must be 4 KiB or 16 KiB, got ", bytes as u64),
            )
        }
    }

    pub fn bytes(self) -> (r: usize)
        ensures
            r == self.0,
    {
        self.0 as usize
    }

    pub fn is_aligned(self, address: u64) -> (r: bool)
        requires
            self.0 > 0,
        ensures
            r == aligned_to(address, self.0),
            self.0 == 4096 || self.0 == 16384 ==> (r <==> address % (self.0 as u64) == 0),
    {
        proof {
            lemma_page_alignment(address);
        }
        address & (self.0 as u64 - 1) == 0
    }
}

// ---------------------------------------------------------------------------
// Disk slider
// ---------------------------------------------------------------------------

/// Pure Relay domain result consumed by native disk-size sliders, in GiB.
#[derive(Debug, Clone, Copy, PartialEq, Eq, Structural)]
pub struct DiskResizePlan {
    pub current_gib: u32,
    pub target_gib: u32,
}

pub open spec fn disk_plan(current: u32, target: u32, max: u32, running: bool) -> Result<
    DiskResizePlan,
    Seq<char>,
> {
    if running {
        Err("stop the MicroVM before resizing its disk"@)
    } else if current < 4 || target < 4 || max < 4 {
        Err("Relay virtual disks require at least 4 GiB"@)
    } else if target < current {
        Err("Relay virtual disks are grow-only"@)
    } else if target > max {
        Err("requested disk size exceeds machine quota"@)
    } else {
        Ok(DiskResizePlan { current_gib: current, target_gib: target })
    }
}

impl DiskResizePlan {
    pub const MIN_GIB: u32 = 4;

    /// A stopped, grow-only resize within the quota.
    pub fn from_slider(current_gib: u32, target_gib: u32, max_gib: u32, running: bool) -> (r:
        Result<Self, RelayError>)
        ensures
            only_failed(r),
            failure(r) == disk_plan(current_gib, target_gib, max_gib, running),
    {
        if running {
            return fail("stop the MicroVM before resizing its disk");
        }
        if current_gib < Self::MIN_GIB || target_gib < Self::MIN_GIB || max_gib < Self::MIN_GIB {
            return fail("Relay virtual disks require at least 4 GiB");
        }
        if target_gib < current_gib {
            return fail("Relay virtual disks are grow-only");
        }
        if target_gib > max_gib {
            return fail("requested disk size exceeds machine quota");
        }
        Ok(DiskResizePlan { current_gib, target_gib })
    }

    pub fn grows(self) -> (r: bool)
        ensures
            r == (self.target_gib > self.current_gib),
    {
        self.target_gib > self.current_gib
    }
}


// ---------------------------------------------------------------------------
// Guest manifests
// ---------------------------------------------------------------------------

/// One immutable file named by a guest manifest.
#[derive(Debug, Clone)]
pub struct GuestArtifact {
    pub path: String,
    pub sha256: String,
    pub bytes: u64,
}

#[derive(Debug, Clone)]
pub struct GuestCompatibility {
    pub architecture: String,
    pub os: String,
    pub minimum_relay_version: String,
    pub kernel_release: Option<String>,
}

/// The version of this library, the default minimum a guest asks for.
pub const RELAY_VERSION: &'static str = "0.1.0";

impl Default for GuestCompatibility {
    fn default() -> (r: Self)
        ensures
            r.architecture@ == "aarch64"@,
            r.os@ == "linux"@,
            r.minimum_relay_version@ == RELAY_VERSION@,
            r.kernel_release is None,
    {
        GuestCompatibility {
            architecture: String::from_str("aarch64"),
            os: String::from_str("linux"),
            minimum_relay_version: String::from_str(RELAY_VERSION),
            kernel_release: None,
        }
    }
}

#[derive(Debug, Clone)]
pub struct GuestManifestSignature {
    pub algorithm: String,
    pub key_id: String,
    pub value: String,
}

/// Versioned NixOS guest input, one signed, page-size-specific record.
#[derive(Debug, Clone)]
pub struct GuestManifest {
    pub version: u32,
    pub page_size: u32,
    pub memory_bytes: u64,
    pub kernel: GuestArtifact,
    pub initrd: Option<GuestArtifact>,
    pub rootfs: GuestArtifact,
    pub command_line: String,
    pub compatibility: GuestCompatibility,
    pub signature: Option<GuestManifestSignature>,
}

pub open spec fn is_hex_digit(c: char) -> bool {
    ('0' <= c <= '9') || ('a' <= c <= 'f') || ('A' <= c <= 'F')
}

/// 64 hexadecimal digits.
pub open spec fn sha256_text(s: Seq<char>) -> bool {
    s.len() == 64 && forall|i: int| 0 <= i < s.len() ==> is_hex_digit(#[trigger] s[i])
}

pub open spec fn artifact_check(name: Seq<char>, a: GuestArtifact) -> Result<(), Seq<char>> {
    if a.path@.len() == 0 || a.bytes == 0 {
        Err("guest "@ + name + " is empty"@)
    } else if !sha256_text(a.sha256@) {
        Err("guest "@ + name + " has invalid sha256"@)
    } else {
        Ok(())
    }
}

pub open spec fn compatibility_ok(c: GuestCompatibility) -> bool {
    &&& c.architecture@ == "aarch64"@
    &&& c.os@ == "linux"@
    &&& !blank(c.minimum_relay_version@)
    &&& match c.kernel_release {
        Some(k) => !blank(k@),
        None => true,
    }
}

/// What `GuestManifest::validate` returns: the page size or the failure message.
pub open spec fn manifest_check(m: GuestManifest) -> Result<GuestPageSize, Seq<char>> {
    if m.version != 1 {
        Err("unsupported Relay guest manifest version "@ + decimal(m.version as nat))
    } else if page_size_check(m.page_size) is Err {
        Err(page_size_check(m.page_size)->Err_0)
    } else if m.memory_bytes < m.page_size * 16 || !aligned_to(m.memory_bytes, m.page_size) {
        Err("guest memory must be at least 16 pages and page aligned"@)
    } else if artifact_check("kernel"@, m.kernel) is Err {
        Err(artifact_check("kernel"@, m.kernel)->Err_0)
    } else if artifact_check("rootfs"@, m.rootfs) is Err {
        Err(artifact_check("rootfs"@, m.rootfs)->Err_0)
    } else if m.initrd is Some && artifact_check("initrd"@, m.initrd->0) is Err {
        Err(artifact_check("initrd"@, m.initrd->0)->Err_0)
    } else if has_char(m.command_line@, '\0') {
        Err("guest command line contains NUL"@)
    } else if !compatibility_ok(m.compatibility) {
        Err("guest compatibility metadata is unsupported"@)
    } else {
        Ok(GuestPageSize(m.page_size))
    }
}

fn guest_message(name: &str, tail: &str) -> (r: String)
    ensures
        r@ == "guest "@ + name@ + tail@,
{
    let mut out = String::from_str("guest ");
    out.append(name);
    out.append(tail);
    out
}

fn is_sha256_text(s: &str) -> (r: bool)
    ensures
        r == sha256_text(s@),
{
    let n = s.unicode_len();
    if n != 64 {
        return false;
    }
    let mut i: usize = 0;
    while i < n
        invariant
            n == s@.len(),
            i <= n,
            forall|j: int| 0 <= j < i ==> is_hex_digit(#[trigger] s@[j]),
        decreases n - i,
    {
        let c = s.get_char(i);
        if !(('0' <= c && c <= '9') || ('a' <= c && c <= 'f') || ('A' <= c && c <= 'F')) {
            assert(!is_hex_digit(s@[i as int]));
            return false;
        }
        i = i + 1;
    }
    true
}

fn validate_artifact(name: &str, artifact: &GuestArtifact) -> (r: Result<(), RelayError>)
    ensures
        only_failed(r),
        failure(r) == artifact_check(name@, *artifact),
{
    if artifact.path.as_str().unicode_len() == 0 || artifact.bytes == 0 {
        return fail_string(guest_message(name, " is empty"));
    }
    if !is_sha256_text(artifact.sha256.as_str()) {
        return fail_string(guest_message(name, " has invalid sha256"));
    }
    Ok(())
}

impl GuestManifest {
    pub const VERSION: u32 = 1;

    /// Check version, page geometry, memory, artifacts, command line and
    /// compatibility metadata; the guest's page size on success.
    pub fn validate(&self) -> (r: Result<GuestPageSize, RelayError>)
        ensures
            only_failed(r),
            failure(r) == manifest_check(*self),
    {
        if self.version != Self::VERSION {
            return fail_string(
                with_decimal("unsupported Relay guest manifest version ", self.version as u64),
            );
        }
        let page_size = match GuestPageSize::resolve(Some(self.page_size), self.page_size) {
            Ok(p) => p,
            Err(e) => {
                return Err(e);
            },
        };
        if self.memory_bytes < (page_size.bytes() as u64) * 16 || !page_size.is_aligned(
            self.memory_bytes,
        ) {
            return fail("guest memory must be at least 16 pages and page aligned");
        }
        match validate_artifact("kernel", &self.kernel) {
            Ok(()) => {},
            Err(e) => {
                return Err(e);
            },
        }
        match validate_artifact("rootfs", &self.rootfs) {
            Ok(()) => {},
            Err(e) => {
                return Err(e);
            },
        }
        match &self.initrd {
            Some(initrd) => match validate_artifact("initrd", initrd) {
                Ok(()) => {},
                Err(e) => {
                    return Err(e);
                },
            },
            None => {},
        }
        if contains_char(self.command_line.as_str(), '\0') {
            return fail("guest command line contains NUL");
        }
        let release_blank = match &self.compatibility.kernel_release {
            Some(k) => is_blank(k.as_str()),
            None => false,
        };
        if !str_eq(self.compatibility.architecture.as_str(), "aarch64") || !str_eq(
            self.compatibility.os.as_str(),
            "linux",
        ) || is_blank(self.compatibility.minimum_relay_version.as_str()) || release_blank {
            return fail("guest compatibility metadata is unsupported");
        }
        Ok(page_size)
    }
}


// ---------------------------------------------------------------------------
// Trusted signing keys and signature checks
// ---------------------------------------------------------------------------

/// Trusted guest signing keys: key id to hexadecimal Ed25519 public key.
/// A later entry for the same id replaces an earlier one, as a map insert does.
#[derive(Debug, Clone)]
pub struct TrustedKeys {
    entries: Vec<(String, String)>,
}

pub open spec fn entry_texts(entries: Seq<(String, String)>) -> Seq<(Seq<char>, Seq<char>)> {
    entries.map_values(|e: (String, String)| (e.0@, e.1@))
}

/// The value stored for `key`: the last entry with that id.
pub open spec fn lookup(entries: Seq<(Seq<char>, Seq<char>)>, key: Seq<char>) -> Option<Seq<char>>
    decreases entries.len(),
{
    if entries.len() == 0 {
        None
    } else if entries.last().0 == key {
        Some(entries.last().1)
    } else {
        lookup(entries.drop_last(), key)
    }
}

impl TrustedKeys {
    /// The id-to-key pairs in insertion order.
    pub closed spec fn pairs(&self) -> Seq<(Seq<char>, Seq<char>)> {
        entry_texts(self.entries@)
    }

    pub fn new() -> (r: Self)
        ensures
            r.pairs() == Seq::<(Seq<char>, Seq<char>)>::empty(),
    {
        TrustedKeys { entries: Vec::new() }
    }

    /// Trust `public_key_hex` under `key_id`, replacing an earlier key of that id.
    pub fn insert(&mut self, key_id: String, public_key_hex: String)
        ensures
            final(self).pairs() == old(self).pairs().push((key_id@, public_key_hex@)),
            forall|k: Seq<char>|
                lookup(final(self).pairs(), k) == (if k == key_id@ {
                    Some(public_key_hex@)
                } else {
                    lookup(old(self).pairs(), k)
                }),
    {
        let ghost before = self.entries@;
        self.entries.push((key_id, public_key_hex));
        proof {
            assert(entry_texts(self.entries@) =~= entry_texts(before).push((key_id@, public_key_hex@)));
            assert(entry_texts(self.entries@).drop_last() =~= entry_texts(before));
        }
    }

    /// The id-to-key pairs, in insertion order.
    pub fn to_pairs(&self) -> (r: Vec<(String, String)>)
        ensures
            entry_texts(r@) == self.pairs(),
    {
        let mut out: Vec<(String, String)> = Vec::new();
        let mut i: usize = 0;
        while i < self.entries.len()
            invariant
                i <= self.entries@.len(),
                entry_texts(out@) == entry_texts(self.entries@.subrange(0, i as int)),
            decreases self.entries@.len() - i,
        {
            let ghost before = out@;
            let (k, v) = &self.entries[i];
            out.push((k.clone(), v.clone()));
            assert(entry_texts(out@) =~= entry_texts(before).push((k@, v@)));
            assert(entry_texts(self.entries@.subrange(0, i + 1)) =~= entry_texts(
                self.entries@.subrange(0, i as int),
            ).push((k@, v@)));
            i = i + 1;
        }
        assert(self.entries@.subrange(0, i as int) =~= self.entries@);
        out
    }

    /// The key trusted under `key_id`, if any.
    pub fn get(&self, key_id: &str) -> (r: Option<&String>)
        ensures
            match r {
                Some(v) => lookup(self.pairs(), key_id@) == Some(v@),
                None => lookup(self.pairs(), key_id@) is None,
            },
    {
        let mut i = self.entries.len();
        assert(self.entries@.take(i as int) =~= self.entries@);
        while i > 0
            invariant
                i <= self.entries@.len(),
                lookup(self.pairs(), key_id@) == lookup(entry_texts(self.entries@.take(i as int)), key_id@),
            decreases i,
        {
            let ghost prefix = entry_texts(self.entries@.take(i as int));
            assert(prefix.last() == (self.entries@[i - 1].0@, self.entries@[i - 1].1@));
            assert(prefix.drop_last() =~= entry_texts(self.entries@.take(i - 1)));
            if str_eq(self.entries[i - 1].0.as_str(), key_id) {
                return Some(&self.entries[i - 1].1);
            }
            i = i - 1;
        }
        None
    }
}

/// Value of a hexadecimal digit.
pub open spec fn hex_value(c: char) -> nat {
    if '0' <= c <= '9' {
        (c as nat - '0' as nat) as nat
    } else if 'a' <= c <= 'f' {
        (c as nat - 'a' as nat + 10) as nat
    } else {
        (c as nat - 'A' as nat + 10) as nat
    }
}

/// `u8::from_str_radix` on a two-character slice: an optional `+` and one
/// digit, or two digits.
pub open spec fn hex_pair(c0: char, c1: char) -> Option<u8> {
    if c0 == '+' {
        if is_hex_digit(c1) {
            Some(hex_value(c1) as u8)
        } else {
            None
        }
    } else if is_hex_digit(c0) && is_hex_digit(c1) {
        Some((hex_value(c0) * 16 + hex_value(c1)) as u8)
    } else {
        None
    }
}

/// Decoding of `n` bytes written as `2n` hexadecimal characters; errors name the field.
pub open spec fn hex_decode(s: Seq<char>, n: nat, name: Seq<char>) -> Result<Seq<u8>, Seq<char>> {
    if vstd::utf8::encode_utf8(s).len() != 2 * n {
        Err(name + " has invalid length"@)
    } else if !vstd::utf8::is_ascii_chars(s) || exists|i: int|
        0 <= i < n && (#[trigger] hex_pair(s[2 * i], s[2 * i + 1])) is None {
        Err(name + " is not hexadecimal"@)
    } else {
        Ok(Seq::new(n, |i: int| hex_pair(s[2 * i], s[2 * i + 1])->0))
    }
}

pub(crate) fn hex_digit_value(c: char) -> (r: Option<u8>)
    ensures
        match r {
            Some(v) => is_hex_digit(c) && v == hex_value(c),
            None => !is_hex_digit(c),
        },
{
    if '0' <= c && c <= '9' {
        Some(((c as u32) - ('0' as u32)) as u8)
    } else if 'a' <= c && c <= 'f' {
        Some(((c as u32) - ('a' as u32) + 10) as u8)
    } else if 'A' <= c && c <= 'F' {
        Some(((c as u32) - ('A' as u32) + 10) as u8)
    } else {
        None
    }
}

fn parse_hex_pair(c0: char, c1: char) -> (r: Option<u8>)
    ensures
        r == hex_pair(c0, c1),
{
    let low = match hex_digit_value(c1) {
        Some(v) => v,
        None => {
            return None;
        },
    };
    if c0 == '+' {
        return Some(low);
    }
    match hex_digit_value(c0) {
        Some(high) => Some(high * 16 + low),
        None => None,
    }
}

fn text_message(name: &str, tail: &str) -> (r: String)
    ensures
        r@ == name@ + tail@,
{
    let mut out = String::from_str(name);
    out.append(tail);
    out
}

/// Decode `n` bytes from `2n` hexadecimal characters.
fn decode_hex(input: &str, n: usize, name: &str) -> (r: Result<Vec<u8>, RelayError>)
    requires
        2 * n <= usize::MAX,
    ensures
        only_failed(r),
        match r {
            Ok(v) => hex_decode(input@, n as nat, name@) == Ok::<Seq<u8>, Seq<char>>(v@),
            Err(e) => hex_decode(input@, n as nat, name@) == Err::<Seq<u8>, Seq<char>>(error_text(e)),
        },
{
    let byte_len = input.as_bytes().len();
    if byte_len != 2 * n {
        return fail_string(text_message(name, " has invalid length"));
    }
    if !input.is_ascii() {
        return fail_string(text_message(name, " is not hexadecimal"));
    }
    proof {
        vstd::string::is_ascii_spec_bytes(input);
    }
    assert(input@.len() == 2 * n);
    let mut out: Vec<u8> = Vec::new();
    let mut i: usize = 0;
    while i < n
        invariant
            i <= n,
            2 * n <= usize::MAX,
            input@.len() == 2 * n,
            vstd::utf8::encode_utf8(input@).len() == 2 * n,
            vstd::utf8::is_ascii_chars(input@),
            out@.len() == i,
            forall|k: int|
                0 <= k < i ==> #[trigger] hex_pair(input@[2 * k], input@[2 * k + 1]) == Some(
                    out@[k],
                ),
        decreases n - i,
    {
        match parse_hex_pair(input.get_char(2 * i), input.get_char(2 * i + 1)) {
            Some(b) => out.push(b),
            None => {
                assert(hex_pair(input@[2 * (i as int)], input@[2 * (i as int) + 1]) is None);
                return fail_string(text_message(name, " is not hexadecimal"));
            },
        }
        i = i + 1;
    }
    assert(out@ =~= Seq::new(n as nat, |k: int| hex_pair(input@[2 * k], input@[2 * k + 1])->0));
    Ok(out)
}

/// Whether Ed25519 `VerifyingKey::from_bytes` accepts these 32 bytes.
pub uninterp spec fn ed25519_key_valid(public_key: Seq<u8>) -> bool;

/// Whether Ed25519 `verify_strict` accepts `signature` on `message` under `public_key`.
pub uninterp spec fn ed25519_signature_valid(public_key: Seq<u8>, message: Seq<u8>, signature: Seq<u8>) -> bool;

/// Calls `ed25519_dalek::VerifyingKey::from_bytes`. Its result is named by
/// `ed25519_key_valid` on the key bytes: whether they decompress to a curve point.
#[verifier::external_body]
fn ed25519_accepts_key(public_key: &[u8]) -> (r: bool)
    requires
        public_key@.len() == 32,
    ensures
        r == ed25519_key_valid(public_key@),
{
    let bytes: &[u8; 32] = public_key.try_into().unwrap();
    ed25519_dalek::VerifyingKey::from_bytes(bytes).is_ok()
}

/// Calls `ed25519_dalek::VerifyingKey::verify_strict` on the key decoded from
/// `public_key`. Its result is named by `ed25519_signature_valid` on the key,
/// message and signature bytes.
#[verifier::external_body]
fn ed25519_verify_strict(public_key: &[u8], message: &[u8], signature: &[u8]) -> (r: bool)
    requires
        public_key@.len() == 32,
        signature@.len() == 64,
        ed25519_key_valid(public_key@),
    ensures
        r == ed25519_signature_valid(public_key@, message@, signature@),
{
    let key: &[u8; 32] = public_key.try_into().unwrap();
    let sig: &[u8; 64] = signature.try_into().unwrap();
    match ed25519_dalek::VerifyingKey::from_bytes(key) {
        Ok(key) => key.verify_strict(message, &ed25519_dalek::Signature::from_bytes(sig)).is_ok(),
        Err(_) => false,
    }
}

/// What `verify_trust` decides for a manifest whose unsigned encoding is `message`.
pub open spec fn trust_check(
    signature: Option<GuestManifestSignature>,
    message: Seq<u8>,
    keys: Seq<(Seq<char>, Seq<char>)>,
    allow_unsigned: bool,
) -> Result<(), Seq<char>> {
    match signature {
        None => if allow_unsigned {
            Ok(())
        } else {
            Err("guest manifest requires a trusted signature"@)
        },
        Some(sig) => if sig.algorithm@ != "ed25519"@ {
            Err("guest manifest signature algorithm is unsupported"@)
        } else {
            match lookup(keys, sig.key_id@) {
                None => Err("guest manifest signing key is not trusted"@),
                Some(key_hex) => match hex_decode(key_hex, 32, "guest public key"@) {
                    Err(e) => Err(e),
                    Ok(key) => match hex_decode(sig.value@, 64, "guest signature"@) {
                        Err(e) => Err(e),
                        Ok(sig_bytes) => if !ed25519_key_valid(key) {
                            Err("guest public key is invalid"@)
                        } else if !ed25519_signature_valid(key, message, sig_bytes) {
                            Err("guest manifest signature is invalid"@)
                        } else {
                            Ok(())
                        },
                    },
                },
            }
        },
    }
}

impl GuestManifest {
    /// Check the manifest's Ed25519 signature against the trusted keys.
    /// `signing_bytes` is the manifest's canonical encoding without its signature.
    /// Unsigned manifests pass only when `allow_unsigned` is set.
    pub fn verify_trust(&self, signing_bytes: &[u8], trusted_keys: &TrustedKeys, allow_unsigned: bool) -> (r:
        Result<(), RelayError>)
        ensures
            only_failed(r),
            failure(r) == trust_check(self.signature, signing_bytes@, trusted_keys.pairs(), allow_unsigned),
    {
        let signature = match &self.signature {
            None => {
                return if allow_unsigned {
                    Ok(())
                } else {
                    fail("guest manifest requires a trusted signature")
                };
            },
            Some(s) => s,
        };
        if !str_eq(signature.algorithm.as_str(), "ed25519") {
            return fail("guest manifest signature algorithm is unsupported");
        }
        let key_hex = match trusted_keys.get(signature.key_id.as_str()) {
            Some(k) => k,
            None => {
                return fail("guest manifest signing key is not trusted");
            },
        };
        let key = match decode_hex(key_hex.as_str(), 32, "guest public key") {
            Ok(k) => k,
            Err(e) => {
                return Err(e);
            },
        };
        let sig = match decode_hex(signature.value.as_str(), 64, "guest signature") {
            Ok(s) => s,
            Err(e) => {
                return Err(e);
            },
        };
        if !ed25519_accepts_key(key.as_slice()) {
            return fail("guest public key is invalid");
        }
        if !ed25519_verify_strict(key.as_slice(), signing_bytes, sig.as_slice()) {
            return fail("guest manifest signature is invalid");
        }
        Ok(())
    }
}


// ---------------------------------------------------------------------------
// Machine profiles and start specs
// ---------------------------------------------------------------------------

/// Runtime paths supplied by native packaging. They never select the backend.
#[derive(Debug, Clone)]
pub struct RelayRuntimeResources {
    pub launcher: String,
    pub state_directory: String,
    pub guest_directory: Option<String>,
    pub trusted_guest_keys: TrustedKeys,
    pub allow_unsigned_guest: bool,
}

/// What Wawona sends: kind, platform, artifact class and optional guest data.
#[derive(Debug, Clone)]
pub struct RelaySpec {
    pub kind: RelayKind,
    pub platform: RelayPlatform,
    pub artifact: ArtifactClass,
    pub machine_id: Option<String>,
    pub image: Option<String>,
    pub memory_mb: Option<u32>,
    /// `None` selects host page geometry at runtime.
    pub guest_page_size: Option<u32>,
    /// A verified Linux guest description; absent selects the small proof only.
    pub guest: Option<GuestManifest>,
    pub resources: Option<RelayRuntimeResources>,
    /// Injected host facts, for tests and for a Mac targeting an iOS spec.
    pub ios_hv_host: Option<IosHvHost>,
}

/// Versioned VM/container profile owned by Relay.
#[derive(Debug, Clone)]
pub struct RelayMachineProfile {
    pub version: u32,
    pub id: String,
    pub kind: RelayKind,
    pub guest: GuestManifest,
    pub image: Option<String>,
    pub memory_mb: u32,
    pub disk_gib: u32,
    pub max_disk_gib: u32,
}

/// What `RelayMachineProfile::validate` decides: success or the failure message.
pub open spec fn profile_check(p: RelayMachineProfile) -> Result<(), Seq<char>> {
    if p.version != 1 {
        Err("unsupported Relay machine profile version "@ + decimal(p.version as nat))
    } else if !crate::text::identifier(crate::text::trimmed(p.id@), 128) {
        Err("machine profile id must be 1-128 ASCII identifier characters"@)
    } else if p.kind == RelayKind::Wasm {
        Err("Relay machine profiles support VM or container kinds"@)
    } else if p.memory_mb < 256 || p.memory_mb > 65536 {
        Err("machine profile memory is outside Relay limits"@)
    } else if p.guest.memory_bytes != p.memory_mb * 1024 * 1024 {
        Err("machine profile memory differs from guest manifest"@)
    } else if manifest_check(p.guest) is Err {
        Err(manifest_check(p.guest)->Err_0)
    } else if disk_plan(p.disk_gib, p.disk_gib, p.max_disk_gib, false) is Err {
        Err(disk_plan(p.disk_gib, p.disk_gib, p.max_disk_gib, false)->Err_0)
    } else if p.kind == RelayKind::Vm && p.image is Some {
        Err("VM profile cannot contain an OCI image"@)
    } else if p.kind == RelayKind::Container && (p.image is None || blank(p.image->0@)) {
        Err("container profile requires an OCI image"@)
    } else {
        Ok(())
    }
}

fn copy_opt_string(s: &Option<String>) -> (r: Option<String>)
    ensures
        r == *s,
{
    match s {
        Some(v) => Some(v.clone()),
        None => None,
    }
}

fn copy_artifact(a: &GuestArtifact) -> (r: GuestArtifact)
    ensures
        r == *a,
{
    GuestArtifact { path: a.path.clone(), sha256: a.sha256.clone(), bytes: a.bytes }
}

/// A field-for-field copy of a manifest.
pub fn copy_manifest(m: &GuestManifest) -> (r: GuestManifest)
    ensures
        r == *m,
{
    GuestManifest {
        version: m.version,
        page_size: m.page_size,
        memory_bytes: m.memory_bytes,
        kernel: copy_artifact(&m.kernel),
        initrd: match &m.initrd {
            Some(a) => Some(copy_artifact(a)),
            None => None,
        },
        rootfs: copy_artifact(&m.rootfs),
        command_line: m.command_line.clone(),
        compatibility: GuestCompatibility {
            architecture: m.compatibility.architecture.clone(),
            os: m.compatibility.os.clone(),
            minimum_relay_version: m.compatibility.minimum_relay_version.clone(),
            kernel_release: copy_opt_string(&m.compatibility.kernel_release),
        },
        signature: match &m.signature {
            Some(s) => Some(
                GuestManifestSignature {
                    algorithm: s.algorithm.clone(),
                    key_id: s.key_id.clone(),
                    value: s.value.clone(),
                },
            ),
            None => None,
        },
    }
}

impl RelayMachineProfile {
    pub const VERSION: u32 = 1;
    pub const MIN_MEMORY_MB: u32 = 256;
    pub const MAX_MEMORY_MB: u32 = 65_536;

    /// Version, identifier, kind, memory, guest manifest, disk quota and OCI image rules.
    pub fn validate(&self) -> (r: Result<(), RelayError>)
        ensures
            only_failed(r),
            failure(r) == profile_check(*self),
    {
        if self.version != Self::VERSION {
            return fail_string(
                with_decimal("unsupported Relay machine profile version ", self.version as u64),
            );
        }
        if !crate::text::trimmed_is_identifier(self.id.as_str(), 128) {
            return fail("machine profile id must be 1-128 ASCII identifier characters");
        }
        if matches!(self.kind, RelayKind::Wasm) {
            return fail("Relay machine profiles support VM or container kinds");
        }
        if self.memory_mb < Self::MIN_MEMORY_MB || self.memory_mb > Self::MAX_MEMORY_MB {
            return fail("machine profile memory is outside Relay limits");
        }
        let expected_memory = (self.memory_mb as u64) * 1024 * 1024;
        if self.guest.memory_bytes != expected_memory {
            return fail("machine profile memory differs from guest manifest");
        }
        match self.guest.validate() {
            Ok(_) => {},
            Err(e) => {
                return Err(e);
            },
        }
        match DiskResizePlan::from_slider(self.disk_gib, self.disk_gib, self.max_disk_gib, false) {
            Ok(_) => {},
            Err(e) => {
                return Err(e);
            },
        }
        if matches!(self.kind, RelayKind::Vm) && self.image.is_some() {
            return fail("VM profile cannot contain an OCI image");
        }
        if matches!(self.kind, RelayKind::Container) {
            let missing = match &self.image {
                None => true,
                Some(image) => is_blank(image.as_str()),
            };
            if missing {
                return fail("container profile requires an OCI image");
            }
        }
        Ok(())
    }

    /// The start spec of a valid profile for this platform and artifact.
    pub fn start_spec(&self, platform: RelayPlatform, artifact: ArtifactClass) -> (r: Result<
        RelaySpec,
        RelayError,
    >)
        ensures
            only_failed(r),
            profile_check(*self) is Err <==> r is Err,
            r is Err ==> failure(r) == Err::<RelaySpec, Seq<char>>(profile_check(*self)->Err_0),
            r matches Ok(s) ==> {
                &&& s.kind == self.kind
                &&& s.platform == platform
                &&& s.artifact == artifact
                &&& s.machine_id == Some(self.id)
                &&& s.image == self.image
                &&& s.memory_mb == Some(self.memory_mb)
                &&& s.guest_page_size == Some(self.guest.page_size)
                &&& s.guest == Some(self.guest)
                &&& s.resources is None
                &&& s.ios_hv_host is None
            },
    {
        match self.validate() {
            Ok(()) => {},
            Err(e) => {
                return Err(e);
            },
        }
        Ok(
            RelaySpec {
                kind: self.kind,
                platform,
                artifact,
                machine_id: Some(self.id.clone()),
                image: copy_opt_string(&self.image),
                memory_mb: Some(self.memory_mb),
                guest_page_size: Some(self.guest.page_size),
                guest: Some(copy_manifest(&self.guest)),
                resources: None,
                ios_hv_host: None,
            },
        )
    }
}

// ---------------------------------------------------------------------------
// Backend resolution
// ---------------------------------------------------------------------------

pub open spec fn wasm_backend(platform: RelayPlatform, artifact: ArtifactClass) -> RelayBackend {
    match platform {
        RelayPlatform::Macos | RelayPlatform::Linux => RelayBackend::WasmCranelift,
        RelayPlatform::Android => match artifact {
            ArtifactClass::ModeA => RelayBackend::WasmPulley,
            ArtifactClass::ModeB => RelayBackend::WasmCranelift,
        },
        _ => RelayBackend::WasmPulley,
    }
}

/// The iOS/iPadOS VM backend: HV only for Mode B inside the public window.
pub open spec fn ios_vm_backend(artifact: ArtifactClass, host: Option<IosHvHost>) -> RelayBackend {
    match artifact {
        ArtifactClass::ModeA => RelayBackend::StaticCpu,
        ArtifactClass::ModeB => if probe_reason(artifact, host) == IosHvReason::Supported {
            RelayBackend::IosHv
        } else {
            RelayBackend::StaticCpu
        },
    }
}

/// The backend table: `(kind, platform, artifact)` and host facts to one backend.
pub open spec fn backend_for(spec: RelaySpec) -> Result<RelayBackend, RelayError> {
    match spec.kind {
        RelayKind::Wasm => Ok(wasm_backend(spec.platform, spec.artifact)),
        _ => match spec.platform {
            RelayPlatform::Tvos | RelayPlatform::Watchos | RelayPlatform::Visionos => Err(
                RelayError::Forbidden(
                    "VM and container machine kinds are forbidden on tvOS/watchOS/visionOS",
                ),
            ),
            RelayPlatform::Macos => Ok(RelayBackend::Vz),
            RelayPlatform::Linux => Ok(RelayBackend::KvmCloudHypervisor),
            RelayPlatform::Ios | RelayPlatform::Ipados => Ok(
                ios_vm_backend(spec.artifact, spec.ios_hv_host),
            ),
            RelayPlatform::Android => match spec.artifact {
                ArtifactClass::ModeA => Err(
                    RelayError::Planned(
                        "Android Play Linux VMs wait on Relay static CPU. No AVF, no QEMU, no proot",
                    ),
                ),
                ArtifactClass::ModeB => Ok(RelayBackend::AvfLab),
            },
        },
    }
}

fn resolve_wasm(spec: &RelaySpec) -> (r: RelayBackend)
    ensures
        r == wasm_backend(spec.platform, spec.artifact),
{
    match spec.platform {
        RelayPlatform::Macos | RelayPlatform::Linux => RelayBackend::WasmCranelift,
        RelayPlatform::Android => match spec.artifact {
            ArtifactClass::ModeA => RelayBackend::WasmPulley,
            ArtifactClass::ModeB => RelayBackend::WasmCranelift,
        },
        RelayPlatform::Ios | RelayPlatform::Ipados | RelayPlatform::Tvos | RelayPlatform::Watchos
        | RelayPlatform::Visionos => RelayBackend::WasmPulley,
    }
}

fn resolve_ios_linux_vm(spec: &RelaySpec) -> (r: RelayBackend)
    ensures
        r == ios_vm_backend(spec.artifact, spec.ios_hv_host),
{
    match spec.artifact {
        ArtifactClass::ModeA => RelayBackend::StaticCpu,
        ArtifactClass::ModeB => {
            let host = match &spec.ios_hv_host {
                Some(h) => Some(h),
                None => None,
            };
            assert(host_opt(host) == spec.ios_hv_host);
            if probe_ios_hv(spec.artifact, host).supported {
                RelayBackend::IosHv
            } else {
                RelayBackend::StaticCpu
            }
        },
    }
}

fn resolve_linux_vm(spec: &RelaySpec) -> (r: Result<RelayBackend, RelayError>)
    requires
        spec.kind != RelayKind::Wasm,
    ensures
        r == backend_for(*spec),
{
    match spec.platform {
        RelayPlatform::Tvos | RelayPlatform::Watchos | RelayPlatform::Visionos => Err(
            RelayError::Forbidden(
                "VM and container machine kinds are forbidden on tvOS/watchOS/visionOS",
            ),
        ),
        RelayPlatform::Macos => Ok(RelayBackend::Vz),
        RelayPlatform::Linux => Ok(RelayBackend::KvmCloudHypervisor),
        RelayPlatform::Ios | RelayPlatform::Ipados => Ok(resolve_ios_linux_vm(spec)),
        RelayPlatform::Android => match spec.artifact {
            ArtifactClass::ModeA => Err(
                RelayError::Planned(
                    "Android Play Linux VMs wait on Relay static CPU. No AVF, no QEMU, no proot",
                ),
            ),
            ArtifactClass::ModeB => Ok(RelayBackend::AvfLab),
        },
    }
}

/// Resolve `(platform, artifact, kind)` to one backend. Never QEMU.
pub fn resolve_backend(spec: &RelaySpec) -> (r: Result<RelayBackend, RelayError>)
    ensures
        r == backend_for(*spec),
{
    match spec.kind {
        RelayKind::Wasm => Ok(resolve_wasm(spec)),
        RelayKind::Vm | RelayKind::Container => resolve_linux_vm(spec),
    }
}

/// VM and container specs that differ only in kind resolve to the same backend.
pub proof fn lemma_container_shares_vm_backend(vm: RelaySpec, container: RelaySpec)
    requires
        vm.kind == RelayKind::Vm,
        container.kind == RelayKind::Container,
        vm.platform == container.platform,
        vm.artifact == container.artifact,
        vm.ios_hv_host == container.ios_hv_host,
    ensures
        backend_for(vm) == backend_for(container),
{
}

/// Mode A never selects the HV window, whatever the host facts say.
pub proof fn lemma_mode_a_never_hv(spec: RelaySpec)
    requires
        spec.artifact == ArtifactClass::ModeA,
    ensures
        backend_for(spec) != Ok::<RelayBackend, RelayError>(RelayBackend::IosHv),
{
}

/// Wasm never runs in a VM backend: Apple mobile is always Pulley.
pub proof fn lemma_apple_mobile_wasm_is_pulley(spec: RelaySpec)
    requires
        spec.kind == RelayKind::Wasm,
        spec.platform != RelayPlatform::Macos,
        spec.platform != RelayPlatform::Linux,
        spec.platform != RelayPlatform::Android,
    ensures
        backend_for(spec) == Ok::<RelayBackend, RelayError>(RelayBackend::WasmPulley),
{
}

/// A disk plan exists only for a stopped machine, and it only grows the disk,
/// from at least 4 GiB, within the quota.
pub proof fn lemma_disk_plans_grow_when_stopped(current: u32, target: u32, max: u32, running: bool)
    requires
        disk_plan(current, target, max, running) is Ok,
    ensures
        !running,
        4 <= current <= target <= max,
        disk_plan(current, target, max, running) == Ok::<DiskResizePlan, Seq<char>>(
            DiskResizePlan { current_gib: current, target_gib: target },
        ),
{
}

/// A manifest is trusted only when it carries a valid Ed25519 signature by a
/// trusted key over its signing bytes, or when it is unsigned and unsigned
/// guests were explicitly allowed.
pub proof fn lemma_trust_needs_signature_or_flag(
    signature: Option<GuestManifestSignature>,
    message: Seq<u8>,
    keys: Seq<(Seq<char>, Seq<char>)>,
    allow_unsigned: bool,
)
    requires
        trust_check(signature, message, keys, allow_unsigned) is Ok,
    ensures
        signature is None ==> allow_unsigned,
        signature matches Some(sig) ==> {
            &&& sig.algorithm@ == "ed25519"@
            &&& lookup(keys, sig.key_id@) matches Some(key_hex)
            &&& hex_decode(key_hex, 32, "guest public key"@) matches Ok(key)
            &&& hex_decode(sig.value@, 64, "guest signature"@) matches Ok(sig_bytes)
            &&& ed25519_key_valid(key)
            &&& ed25519_signature_valid(key, message, sig_bytes)
        },
{
}

} // verus!
