//! Mode B iOS / iPadOS Hypervisor.framework window.
//!
//! Product VMs on macOS stay `Virtualization.framework`. This module never
//! selects HV for Mode A, wasm, tvOS, watchOS, or visionOS. Relay owns the
//! detection: Mode A versus Mode B is which binary was installed.
use crate::relay_core::ArtifactClass;
use crate::text::{
    char_is_space, decimal, digit_char, digit_value, digits_value, is_digit, is_space, parse_u32,
    parse_u32_range, skip_spaces, str_eq, trim_end_at, trimmed,
};
use vstd::prelude::*;

verus! {

/// Public UTM-compatible SoCs. A12Z is hardware-capable and not a product target.
#[derive(Debug, Clone, Copy, PartialEq, Eq)]
pub enum PublicHvSoc {
    M1,
    M2,
    A16,
}

#[derive(Debug, Clone, Copy, PartialEq, Eq)]
pub struct OsVersion {
    pub major: u32,
    pub minor: u32,
    pub patch: u32,
}

/// Lexicographic order on `(major, minor, patch)`.
pub open spec fn version_le(a: OsVersion, b: OsVersion) -> bool {
    ||| a.major < b.major
    ||| (a.major == b.major && a.minor < b.minor)
    ||| (a.major == b.major && a.minor == b.minor && a.patch <= b.patch)
}

/// Inclusive kernel HV ceiling. Apple removed the iOS hypervisor in 16.4.
pub open spec fn ceiling() -> OsVersion {
    OsVersion { major: 16, minor: 3, patch: 1 }
}

/// The inclusive kernel HV ceiling, iOS 16.3.1.
pub fn ios_hv_os_ceiling() -> (r: OsVersion)
    ensures
        r == ceiling(),
{
    OsVersion::new(16, 3, 1)
}

/// Index of the first `.` in `s` at or after `i`, or `s.len()`.
pub open spec fn next_dot(s: Seq<char>, i: int) -> int
    decreases s.len() - i,
{
    if i >= s.len() || i < 0 {
        s.len() as int
    } else if s[i] == '.' {
        i
    } else {
        next_dot(s, i + 1)
    }
}

/// A version component after the first: absent or unparsable reads as zero.
pub open spec fn component_or_zero(s: Seq<char>, start: int) -> u32 {
    if start > s.len() {
        0
    } else {
        match parse_u32(s.subrange(start, next_dot(s, start))) {
            Some(v) => v,
            None => 0,
        }
    }
}

/// `"major[.minor[.patch]]"` after trimming, as `OsVersion::parse` reads it.
pub open spec fn parse_version(text: Seq<char>) -> Option<OsVersion> {
    let t = trimmed(text);
    let d0 = next_dot(t, 0);
    let d1 = next_dot(t, d0 + 1);
    match parse_u32(t.subrange(0, d0)) {
        None => None,
        Some(major) => Some(
            OsVersion {
                major,
                minor: component_or_zero(t, d0 + 1),
                patch: if d0 + 1 > t.len() { 0 } else { component_or_zero(t, d1 + 1) },
            },
        ),
    }
}

proof fn lemma_next_dot(s: Seq<char>, i: int)
    requires
        0 <= i <= s.len(),
    ensures
        i <= next_dot(s, i) <= s.len(),
        next_dot(s, i) < s.len() ==> s[next_dot(s, i)] == '.',
        forall|k: int| i <= k < next_dot(s, i) ==> s[k] != '.',
    decreases s.len() - i,
{
    if i < s.len() && s[i] != '.' {
        lemma_next_dot(s, i + 1);
    }
}

/// `next_dot` over the characters of a string.
fn find_dot(s: &str, from: usize, to: usize, Ghost(t): Ghost<Seq<char>>, Ghost(base): Ghost<int>) -> (r: usize)
    requires
        from <= to <= s@.len(),
        0 <= base <= from,
        t == s@.subrange(base, to as int),
    ensures
        from <= r <= to,
        r - base == next_dot(t, from - base),
{
    let mut i = from;
    while i < to && s.get_char(i) != '.'
        invariant
            from <= i <= to <= s@.len(),
            0 <= base <= from,
            t == s@.subrange(base, to as int),
            next_dot(t, from - base) == next_dot(t, i - base),
        decreases to - i,
    {
        i = i + 1;
    }
    i
}

impl OsVersion {
    pub fn new(major: u32, minor: u32, patch: u32) -> (r: Self)
        ensures
            r == (OsVersion { major, minor, patch }),
    {
        OsVersion { major, minor, patch }
    }

    /// Parse `"major[.minor[.patch]]"`. The major component is required;
    /// a missing or unparsable minor or patch reads as zero.
    pub fn parse(text: &str) -> (r: Option<Self>)
        ensures
            r == parse_version(text@),
    {
        let n = text.unicode_len();
        let mut start: usize = 0;
        while start < n && char_is_space(text.get_char(start))
            invariant
                n == text@.len(),
                start <= n,
                crate::text::skip_spaces(text@, 0) == crate::text::skip_spaces(text@, start as int),
            decreases n - start,
        {
            start = start + 1;
        }
        let mut end: usize = n;
        while end > start && char_is_space(text.get_char(end - 1))
            invariant
                n == text@.len(),
                start <= end <= n,
                crate::text::trim_end_at(text@, n as int) == crate::text::trim_end_at(text@, end as int),
                start < n ==> !is_space(text@[start as int]),
                start < n ==> end > start,
            decreases end,
        {
            end = end - 1;
        }
        let ghost t = trimmed(text@);
        proof {
            crate::text::lemma_trim_bounds(text@, start as int, end as int);
        }
        assert(t == text@.subrange(start as int, end as int));
        let d0 = find_dot(text, start, end, Ghost(t), Ghost(start as int));
        let major = match parse_u32_range(text, start, d0) {
            Some(v) => v,
            None => {
                assert(t.subrange(0, d0 - start) == text@.subrange(start as int, d0 as int));
                return None;
            },
        };
        assert(t.subrange(0, d0 - start) == text@.subrange(start as int, d0 as int));
        let mut minor: u32 = 0;
        let mut patch: u32 = 0;
        if d0 < end {
            let d1 = find_dot(text, d0 + 1, end, Ghost(t), Ghost(start as int));
            assert(t.subrange(d0 + 1 - start, d1 - start) == text@.subrange(d0 + 1, d1 as int));
            minor = match parse_u32_range(text, d0 + 1, d1) {
                Some(v) => v,
                None => 0,
            };
            if d1 < end {
                let d2 = find_dot(text, d1 + 1, end, Ghost(t), Ghost(start as int));
                assert(t.subrange(d1 + 1 - start, d2 - start) == text@.subrange(d1 + 1, d2 as int));
                patch = match parse_u32_range(text, d1 + 1, d2) {
                    Some(v) => v,
                    None => 0,
                };
            }
        }
        Some(OsVersion { major, minor, patch })
    }

    pub fn cmp_tuple(self) -> (r: (u32, u32, u32))
        ensures
            r == (self.major, self.minor, self.patch),
    {
        (self.major, self.minor, self.patch)
    }

    /// `self <= other` in version order.
    pub fn at_most(self, other: Self) -> (r: bool)
        ensures
            r == version_le(self, other),
    {
        let (a, b, c) = self.cmp_tuple();
        let (x, y, z) = other.cmp_tuple();
        a < x || (a == x && (b < y || (b == y && c <= z)))
    }

    /// `self >= other` in version order.
    pub fn at_least(self, other: Self) -> (r: bool)
        ensures
            r == version_le(other, self),
    {
        other.at_most(self)
    }
}

/// Facts about the running (or injected) Apple device.
#[derive(Debug, Clone, PartialEq, Eq)]
pub struct IosHvHost {
    pub os: OsVersion,
    /// `hw.machine`, for example `iPhone15,2`.
    pub hw_machine: String,
    /// Kernel trap result. `None` means not probed yet.
    pub kernel_hv: Option<bool>,
    /// `com.apple.private.hypervisor` on iOS. `None` means unknown.
    pub has_private_hypervisor_entitlement: Option<bool>,
}

impl IosHvHost {
    /// iPhone 14 Pro on iOS 16.3.1 with the kernel trap and entitlement present.
    pub fn iphone_14_pro_16_3_1() -> (r: Self)
        ensures
            r.os == (OsVersion { major: 16, minor: 3, patch: 1 }),
            r.hw_machine@ == "iPhone15,2"@,
            r.kernel_hv == Some(true),
            r.has_private_hypervisor_entitlement == Some(true),
    {
        IosHvHost {
            os: OsVersion::new(16, 3, 1),
            hw_machine: String::from_str("iPhone15,2"),
            kernel_hv: Some(true),
            has_private_hypervisor_entitlement: Some(true),
        }
    }
}

#[derive(Debug, Clone, Copy, PartialEq, Eq)]
pub enum IosHvReason {
    Supported,
    ModeA,
    OsTooNew,
    OsTooOld,
    SocNotPublic,
    SocUnknown,
    KernelRemoved,
    MissingEntitlement,
    NoHostFacts,
}

pub open spec fn reason_text(r: IosHvReason) -> Seq<char> {
    match r {
        IosHvReason::Supported => "supported"@,
        IosHvReason::ModeA => "mode-a"@,
        IosHvReason::OsTooNew => "os-too-new"@,
        IosHvReason::OsTooOld => "os-too-old"@,
        IosHvReason::SocNotPublic => "soc-not-public"@,
        IosHvReason::SocUnknown => "soc-unknown"@,
        IosHvReason::KernelRemoved => "kernel-removed"@,
        IosHvReason::MissingEntitlement => "missing-entitlement"@,
        IosHvReason::NoHostFacts => "no-host-facts"@,
    }
}

impl IosHvReason {
    pub fn as_str(self) -> (r: &'static str)
        ensures
            r@ == reason_text(self),
    {
        match self {
            IosHvReason::Supported => "supported",
            IosHvReason::ModeA => "mode-a",
            IosHvReason::OsTooNew => "os-too-new",
            IosHvReason::OsTooOld => "os-too-old",
            IosHvReason::SocNotPublic => "soc-not-public",
            IosHvReason::SocUnknown => "soc-unknown",
            IosHvReason::KernelRemoved => "kernel-removed",
            IosHvReason::MissingEntitlement => "missing-entitlement",
            IosHvReason::NoHostFacts => "no-host-facts",
        }
    }

    pub fn is_supported(self) -> (r: bool)
        ensures
            r == (self == IosHvReason::Supported),
    {
        matches!(self, IosHvReason::Supported)
    }
}

#[derive(Debug, Clone, PartialEq, Eq)]
pub struct IosHvProbe {
    pub supported: bool,
    pub reason: &'static str,
    pub soc: Option<&'static str>,
    pub target: Option<&'static str>,
}

/// Product allowlist, matching the public HV devices: `(target, SoC, OS floor)`.
pub open spec fn hv_target(m: Seq<char>) -> Option<(Seq<char>, PublicHvSoc, OsVersion)> {
    if m == "iPad13,4"@ || m == "iPad13,5"@ || m == "iPad13,6"@ || m == "iPad13,7"@
        || m == "iPad13,8"@ || m == "iPad13,9"@ || m == "iPad13,10"@ || m == "iPad13,11"@ {
        Some(("ipad-pro-m1"@, PublicHvSoc::M1, OsVersion { major: 14, minor: 5, patch: 0 }))
    } else if m == "iPad13,16"@ || m == "iPad13,17"@ {
        Some(("ipad-air-m1"@, PublicHvSoc::M1, OsVersion { major: 15, minor: 4, patch: 0 }))
    } else if m == "iPad14,3"@ || m == "iPad14,4"@ || m == "iPad14,5"@ || m == "iPad14,6"@ {
        Some(("ipad-pro-m2"@, PublicHvSoc::M2, OsVersion { major: 16, minor: 1, patch: 0 }))
    } else if m == "iPhone15,2"@ || m == "iPhone15,3"@ {
        Some(("iphone-14-pro"@, PublicHvSoc::A16, OsVersion { major: 16, minor: 0, patch: 0 }))
    } else {
        None
    }
}

pub open spec fn a12z(m: Seq<char>) -> bool {
    m == "iPad8,9"@ || m == "iPad8,10"@ || m == "iPad8,11"@ || m == "iPad8,12"@
}

pub open spec fn soc_text(soc: PublicHvSoc) -> Seq<char> {
    match soc {
        PublicHvSoc::M1 => "m1"@,
        PublicHvSoc::M2 => "m2"@,
        PublicHvSoc::A16 => "a16"@,
    }
}

/// Product allowlist. Matches UTM 4.4.5 public HV devices.
pub fn public_hv_target(hw_machine: &str) -> (r: Option<(&'static str, PublicHvSoc, OsVersion)>)
    ensures
        match r {
            Some((t, s, f)) => hv_target(hw_machine@) == Some((t@, s, f)),
            None => hv_target(hw_machine@) is None,
        },
{
    if str_eq(hw_machine, "iPad13,4") || str_eq(hw_machine, "iPad13,5") || str_eq(
        hw_machine,
        "iPad13,6",
    ) || str_eq(hw_machine, "iPad13,7") || str_eq(hw_machine, "iPad13,8") || str_eq(
        hw_machine,
        "iPad13,9",
    ) || str_eq(hw_machine, "iPad13,10") || str_eq(hw_machine, "iPad13,11") {
        Some(("ipad-pro-m1", PublicHvSoc::M1, OsVersion::new(14, 5, 0)))
    } else if str_eq(hw_machine, "iPad13,16") || str_eq(hw_machine, "iPad13,17") {
        Some(("ipad-air-m1", PublicHvSoc::M1, OsVersion::new(15, 4, 0)))
    } else if str_eq(hw_machine, "iPad14,3") || str_eq(hw_machine, "iPad14,4") || str_eq(
        hw_machine,
        "iPad14,5",
    ) || str_eq(hw_machine, "iPad14,6") {
        Some(("ipad-pro-m2", PublicHvSoc::M2, OsVersion::new(16, 1, 0)))
    } else if str_eq(hw_machine, "iPhone15,2") || str_eq(hw_machine, "iPhone15,3") {
        Some(("iphone-14-pro", PublicHvSoc::A16, OsVersion::new(16, 0, 0)))
    } else {
        None
    }
}

fn is_a12z(hw_machine: &str) -> (r: bool)
    ensures
        r == a12z(hw_machine@),
{
    str_eq(hw_machine, "iPad8,9") || str_eq(hw_machine, "iPad8,10") || str_eq(hw_machine, "iPad8,11")
        || str_eq(hw_machine, "iPad8,12")
}

fn soc_name(soc: PublicHvSoc) -> (r: &'static str)
    ensures
        r@ == soc_text(soc),
{
    match soc {
        PublicHvSoc::M1 => "m1",
        PublicHvSoc::M2 => "m2",
        PublicHvSoc::A16 => "a16",
    }
}

/// Why the HV window is open or closed for this artifact and host.
pub open spec fn probe_reason(artifact: ArtifactClass, host: Option<IosHvHost>) -> IosHvReason {
    if artifact != ArtifactClass::ModeB {
        IosHvReason::ModeA
    } else {
        match host {
            None => IosHvReason::NoHostFacts,
            Some(h) => if h.has_private_hypervisor_entitlement == Some(false) {
                IosHvReason::MissingEntitlement
            } else if h.kernel_hv == Some(false) {
                IosHvReason::KernelRemoved
            } else if a12z(h.hw_machine@) {
                IosHvReason::SocNotPublic
            } else {
                match hv_target(h.hw_machine@) {
                    None => IosHvReason::SocUnknown,
                    Some((_, _, floor)) => if !version_le(floor, h.os) {
                        IosHvReason::OsTooOld
                    } else if !version_le(h.os, ceiling()) {
                        IosHvReason::OsTooNew
                    } else {
                        IosHvReason::Supported
                    },
                }
            },
        }
    }
}

/// The SoC and target that a probe reports alongside its reason.
pub open spec fn probe_soc_target(artifact: ArtifactClass, host: Option<IosHvHost>) -> (
    Option<Seq<char>>,
    Option<Seq<char>>,
) {
    let reason = probe_reason(artifact, host);
    if reason == IosHvReason::SocNotPublic {
        (None, Some("a12z"@))
    } else if reason == IosHvReason::OsTooOld || reason == IosHvReason::OsTooNew || reason
        == IosHvReason::Supported {
        let (t, s, _) = hv_target(host.unwrap().hw_machine@).unwrap();
        (Some(soc_text(s)), Some(t))
    } else {
        (None, None)
    }
}

pub open spec fn opt_text(o: Option<&str>) -> Option<Seq<char>> {
    match o {
        Some(s) => Some(s@),
        None => None,
    }
}

pub open spec fn host_opt(host: Option<&IosHvHost>) -> Option<IosHvHost> {
    match host {
        Some(h) => Some(*h),
        None => None,
    }
}

fn closed(reason: IosHvReason, soc: Option<&'static str>, target: Option<&'static str>) -> (r: IosHvProbe)
    ensures
        !r.supported,
        r.reason@ == reason_text(reason),
        r.soc == soc,
        r.target == target,
{
    IosHvProbe { supported: false, reason: reason.as_str(), soc, target }
}

/// Decide whether Mode B VM/container resolve may select `IosHv`.
pub fn probe_ios_hv(artifact: ArtifactClass, host: Option<&IosHvHost>) -> (p: IosHvProbe)
    ensures
        p.supported == (probe_reason(artifact, host_opt(host)) == IosHvReason::Supported),
        p.reason@ == reason_text(probe_reason(artifact, host_opt(host))),
        (opt_text(p.soc), opt_text(p.target)) == probe_soc_target(artifact, host_opt(host)),
{
    if !matches!(artifact, ArtifactClass::ModeB) {
        return closed(IosHvReason::ModeA, None, None);
    }
    let host = match host {
        Some(h) => h,
        None => {
            return closed(IosHvReason::NoHostFacts, None, None);
        },
    };
    if matches!(host.has_private_hypervisor_entitlement, Some(false)) {
        return closed(IosHvReason::MissingEntitlement, None, None);
    }
    if matches!(host.kernel_hv, Some(false)) {
        return closed(IosHvReason::KernelRemoved, None, None);
    }
    if is_a12z(host.hw_machine.as_str()) {
        let p = closed(IosHvReason::SocNotPublic, None, Some("a12z"));
        return p;
    }
    let (target, soc, floor) = match public_hv_target(host.hw_machine.as_str()) {
        Some(t) => t,
        None => {
            return closed(IosHvReason::SocUnknown, None, None);
        },
    };
    if !host.os.at_least(floor) {
        return closed(IosHvReason::OsTooOld, Some(soc_name(soc)), Some(target));
    }
    if !host.os.at_most(ios_hv_os_ceiling()) {
        return closed(IosHvReason::OsTooNew, Some(soc_name(soc)), Some(target));
    }
    IosHvProbe {
        supported: true,
        reason: IosHvReason::Supported.as_str(),
        soc: Some(soc_name(soc)),
        target: Some(target),
    }
}

/// Build host facts from the `hw.machine` and `kern.osproductversion` values
/// that an iOS process reads from sysctl; `None` when the version does not parse.
pub fn host_from_sysctl(hw_machine: String, os_product_version: &str, kernel_hv: Option<bool>) -> (r: Option<IosHvHost>)
    ensures
        match parse_version(os_product_version@) {
            None => r is None,
            Some(os) => r == Some(
                IosHvHost {
                    os,
                    hw_machine,
                    kernel_hv,
                    has_private_hypervisor_entitlement: None,
                },
            ),
        },
{
    let os = match OsVersion::parse(os_product_version) {
        Some(os) => os,
        None => {
            return None;
        },
    };
    Some(IosHvHost { os, hw_machine, kernel_hv, has_private_hypervisor_entitlement: None })
}

/// Host facts of the running process from what it read of sysctl:
/// `hw.machine` and `kern.osproductversion` where it could read them (an iOS
/// process; elsewhere `None`), and the kernel trap's answer where it was asked.
/// There are none without both values or when the version does not parse.
pub fn live_ios_hv_host(
    hw_machine: Option<String>,
    os_product_version: Option<String>,
    kernel_hv: Option<bool>,
) -> (r: Option<IosHvHost>)
    ensures
        match (hw_machine, os_product_version) {
            (Some(machine), Some(version)) => match parse_version(version@) {
                None => r is None,
                Some(os) => r == Some(
                    IosHvHost { os, hw_machine: machine, kernel_hv, has_private_hypervisor_entitlement: None },
                ),
            },
            _ => r is None,
        },
{
    match (hw_machine, os_product_version) {
        (Some(machine), Some(version)) => host_from_sysctl(machine, version.as_str(), kernel_hv),
        _ => None,
    }
}

/// macOS product VMs stay VZ. Lab binaries need this entitlement.
pub const MACOS_HV_LAB_ENTITLEMENT: &'static str = "com.apple.security.hypervisor";

pub open spec fn lab_skip(hv_status: i32) -> Option<Seq<char>> {
    if hv_status == -5 {
        Some("nested-or-no-hv"@)
    } else if hv_status == -4 {
        Some("missing-hypervisor-entitlement"@)
    } else {
        None
    }
}

/// Nested virt and hosted runners often return `HV_UNSUPPORTED`. Skip; do not fail.
pub fn macos_hv_lab_skip_reason(hv_status: i32) -> (r: Option<&'static str>)
    ensures
        opt_text(r) == lab_skip(hv_status),
{
    if hv_status == -5 {
        Some("nested-or-no-hv")
    } else if hv_status == -4 {
        Some("missing-hypervisor-entitlement")
    } else {
        None
    }
}


/// The decimal rendering of `n`: at least one digit, and worth `n`.
proof fn lemma_decimal_digits(n: nat)
    ensures
        decimal(n).len() >= 1,
        forall|i: int| 0 <= i < decimal(n).len() ==> is_digit(#[trigger] decimal(n)[i]),
        digits_value(decimal(n)) == n,
    decreases n,
{
    if n >= 10 {
        lemma_decimal_digits(n / 10);
        let d = decimal(n / 10).push(digit_char(n % 10));
        assert(d.drop_last() =~= decimal(n / 10));
        assert(digit_value(digit_char(n % 10)) == n % 10);
        assert(n == (n / 10) * 10 + n % 10) by (nonlinear_arith);
        assert(decimal(n) == d);
        assert(d.last() == digit_char(n % 10));
        assert(digits_value(d) == digits_value(decimal(n / 10)) * 10 + digit_value(d.last()));
        assert(forall|i: int| 0 <= i < d.len() ==> is_digit(#[trigger] d[i])) by {
            assert forall|i: int| 0 <= i < d.len() implies is_digit(#[trigger] d[i]) by {
                if i < d.len() - 1 {
                    assert(d[i] == decimal(n / 10)[i]);
                }
            }
        }
    } else {
        let d = seq![digit_char(n)];
        assert(d.drop_last() =~= Seq::<char>::empty());
        assert(decimal(n) == d);
        assert(digit_value(digit_char(n)) == n);
        assert(digits_value(d) == digits_value(d.drop_last()) * 10 + digit_value(d.last()));
    }
}

/// `str::parse::<u32>` reads back a `u32`'s decimal rendering.
proof fn lemma_parse_decimal(n: u32)
    ensures
        parse_u32(decimal(n as nat)) == Some(n),
{
    lemma_decimal_digits(n as nat);
    assert(decimal(n as nat)[0] != '+');
}

/// From `i` on, the next dot of `s` is at `j` when `s[j]` is a dot and none comes between.
proof fn lemma_next_dot_at(s: Seq<char>, i: int, j: int)
    requires
        0 <= i <= j <= s.len(),
        j < s.len() ==> s[j] == '.',
        forall|k: int| i <= k < j ==> s[k] != '.',
    ensures
        next_dot(s, i) == j,
    decreases j - i,
{
    if i < j {
        lemma_next_dot_at(s, i + 1, j);
    }
}

/// The text `"{a}.{b}.{c}"`.
pub open spec fn version_text(a: u32, b: u32, c: u32) -> Seq<char> {
    decimal(a as nat) + seq!['.'] + decimal(b as nat) + seq!['.'] + decimal(c as nat)
}

/// Parsing a version written as `"{a}.{b}.{c}"` gives back `a`, `b` and `c`.
#[verifier::rlimit(60)]
pub proof fn lemma_parse_formatted_version(a: u32, b: u32, c: u32)
    ensures
        parse_version(version_text(a, b, c)) == Some(OsVersion { major: a, minor: b, patch: c }),
{
    let da = decimal(a as nat);
    let db = decimal(b as nat);
    let dc = decimal(c as nat);
    lemma_decimal_digits(a as nat);
    lemma_decimal_digits(b as nat);
    lemma_decimal_digits(c as nat);
    lemma_parse_decimal(a);
    lemma_parse_decimal(b);
    lemma_parse_decimal(c);
    let s = version_text(a, b, c);
    let la = da.len() as int;
    let lb = db.len() as int;
    let n = s.len() as int;
    assert(n == la + lb + dc.len() + 2);
    assert(forall|k: int| 0 <= k < la ==> s[k] == da[k]);
    assert(s[la] == '.');
    assert(forall|k: int| la < k < la + 1 + lb ==> s[k] == db[k - la - 1]);
    assert(s[la + 1 + lb] == '.');
    assert(forall|k: int| la + 1 + lb < k < n ==> s[k] == dc[k - la - 2 - lb]);
    assert(forall|k: int| 0 <= k < n && k != la && k != la + 1 + lb ==> is_digit(#[trigger] s[k])) by {
        assert forall|k: int| 0 <= k < n && k != la && k != la + 1 + lb implies is_digit(#[trigger] s[k]) by {
            if k < la {
                assert(is_digit(da[k]));
            } else if k < la + 1 + lb {
                assert(is_digit(db[k - la - 1]));
            } else {
                assert(is_digit(dc[k - la - 2 - lb]));
            }
        }
    }
    assert(!is_space(s[0]));
    assert(skip_spaces(s, 0) == 0);
    assert(!is_space(s[n - 1]));
    assert(trim_end_at(s, n) == n);
    assert(trimmed(s) =~= s);
    lemma_next_dot_at(s, 0, la);
    lemma_next_dot_at(s, la + 1, la + 1 + lb);
    lemma_next_dot_at(s, la + 2 + lb, n);
    assert(s.subrange(0, la) =~= da);
    assert(s.subrange(la + 1, la + 1 + lb) =~= db);
    assert(s.subrange(la + 2 + lb, n) =~= dc);
}


/// Parsing fails exactly when the trimmed text up to its first dot is not a
/// `u32`; a version without a dot has minor and patch zero.
pub proof fn lemma_parse_version_major(text: Seq<char>)
    ensures
        parse_version(text) is None <==> parse_u32(
            trimmed(text).subrange(0, next_dot(trimmed(text), 0)),
        ) is None,
        (parse_version(text) is Some && next_dot(trimmed(text), 0) == trimmed(text).len())
            ==> parse_version(text)->Some_0.minor == 0 && parse_version(text)->Some_0.patch == 0,
{
}

} // verus!
