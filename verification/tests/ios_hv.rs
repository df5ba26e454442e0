use wawona_relay::relay_core::ios_hv::{
    host_from_sysctl, live_ios_hv_host, macos_hv_lab_skip_reason, probe_ios_hv, public_hv_target, IosHvHost,
    IosHvReason, OsVersion, PublicHvSoc,
};
use wawona_relay::relay_core::ArtifactClass;

fn host(machine: &str, major: u32, minor: u32, patch: u32) -> IosHvHost {
    IosHvHost {
        os: OsVersion::new(major, minor, patch),
        hw_machine: machine.into(),
        kernel_hv: Some(true),
        has_private_hypervisor_entitlement: Some(true),
    }
}

#[test]
fn mode_a_never_hv() {
    let p = probe_ios_hv(
        ArtifactClass::ModeA,
        Some(&IosHvHost::iphone_14_pro_16_3_1()),
    );
    assert!(!p.supported);
    assert_eq!(p.reason, "mode-a");
}

#[test]
fn mode_b_without_facts_stays_closed() {
    let p = probe_ios_hv(ArtifactClass::ModeB, None);
    assert!(!p.supported);
    assert_eq!(p.reason, "no-host-facts");
}

#[test]
fn iphone_14_pro_16_3_1_is_supported() {
    let p = probe_ios_hv(
        ArtifactClass::ModeB,
        Some(&IosHvHost::iphone_14_pro_16_3_1()),
    );
    assert!(p.supported);
    assert_eq!(p.soc, Some("a16"));
    assert_eq!(p.target, Some("iphone-14-pro"));
}

#[test]
fn ios_16_4_is_blocked() {
    let p = probe_ios_hv(ArtifactClass::ModeB, Some(&host("iPhone15,2", 16, 4, 0)));
    assert!(!p.supported);
    assert_eq!(p.reason, "os-too-new");
}

#[test]
fn a15_iphone_14_is_blocked() {
    let p = probe_ios_hv(ArtifactClass::ModeB, Some(&host("iPhone14,7", 16, 3, 1)));
    assert!(!p.supported);
    assert_eq!(p.reason, "soc-unknown");
}

#[test]
fn a12z_is_not_public() {
    let p = probe_ios_hv(ArtifactClass::ModeB, Some(&host("iPad8,11", 16, 3, 1)));
    assert!(!p.supported);
    assert_eq!(p.reason, "soc-not-public");
}

#[test]
fn ipad_air_m1_needs_15_4() {
    let too_old = probe_ios_hv(ArtifactClass::ModeB, Some(&host("iPad13,16", 15, 3, 0)));
    assert_eq!(too_old.reason, "os-too-old");
    let ok = probe_ios_hv(ArtifactClass::ModeB, Some(&host("iPad13,16", 15, 4, 0)));
    assert!(ok.supported);
    assert_eq!(ok.soc, Some("m1"));
}

#[test]
fn ipad_pro_m2_needs_16_1() {
    let too_old = probe_ios_hv(ArtifactClass::ModeB, Some(&host("iPad14,5", 16, 0, 3)));
    assert_eq!(too_old.reason, "os-too-old");
    let ok = probe_ios_hv(ArtifactClass::ModeB, Some(&host("iPad14,5", 16, 1, 0)));
    assert!(ok.supported);
    assert_eq!(ok.soc, Some("m2"));
}

#[test]
fn kernel_removed_blocks_window_device() {
    let mut h = IosHvHost::iphone_14_pro_16_3_1();
    h.kernel_hv = Some(false);
    let p = probe_ios_hv(ArtifactClass::ModeB, Some(&h));
    assert_eq!(p.reason, "kernel-removed");
}

#[test]
fn macos_lab_skip_does_not_fail_nested() {
    assert_eq!(macos_hv_lab_skip_reason(-5), Some("nested-or-no-hv"));
    assert_eq!(
        macos_hv_lab_skip_reason(-4),
        Some("missing-hypervisor-entitlement")
    );
    assert_eq!(macos_hv_lab_skip_reason(0), None);
}

#[test]
fn missing_entitlement_closes_before_kernel_and_soc_checks() {
    let mut h = host("iPhone14,7", 16, 3, 1);
    h.has_private_hypervisor_entitlement = Some(false);
    h.kernel_hv = Some(false);
    let p = probe_ios_hv(ArtifactClass::ModeB, Some(&h));
    assert_eq!(p.reason, "missing-entitlement");
    assert_eq!(p.soc, None);
    assert_eq!(p.target, None);
}

#[test]
fn a12z_reports_its_target() {
    let p = probe_ios_hv(ArtifactClass::ModeB, Some(&host("iPad8,9", 16, 3, 1)));
    assert_eq!(p.target, Some("a12z"));
    assert_eq!(p.soc, None);
}

#[test]
fn unknown_entitlement_and_kernel_do_not_close_the_window() {
    let mut h = IosHvHost::iphone_14_pro_16_3_1();
    h.kernel_hv = None;
    h.has_private_hypervisor_entitlement = None;
    assert!(probe_ios_hv(ArtifactClass::ModeB, Some(&h)).supported);
}

#[test]
fn allowlist_names_targets_and_floors() {
    let (target, soc, floor) = public_hv_target("iPad13,11").unwrap();
    assert_eq!(target, "ipad-pro-m1");
    assert_eq!(soc, PublicHvSoc::M1);
    assert_eq!(floor, OsVersion::new(14, 5, 0));
    assert!(public_hv_target("iPad13,12").is_none());
    assert!(public_hv_target("").is_none());
}

#[test]
fn os_versions_parse_and_order() {
    assert_eq!(OsVersion::parse(" 16.3.1\n"), Some(OsVersion::new(16, 3, 1)));
    assert_eq!(OsVersion::parse("17"), Some(OsVersion::new(17, 0, 0)));
    assert_eq!(OsVersion::parse("16.x.2"), Some(OsVersion::new(16, 0, 2)));
    assert_eq!(OsVersion::parse("+16.4"), Some(OsVersion::new(16, 4, 0)));
    assert_eq!(OsVersion::parse("16.3.1.9"), Some(OsVersion::new(16, 3, 1)));
    assert_eq!(OsVersion::parse(""), None);
    assert_eq!(OsVersion::parse(".3"), None);
    assert_eq!(OsVersion::parse("4294967296.1"), None);
    assert!(OsVersion::new(16, 3, 1).at_most(OsVersion::new(16, 3, 1)));
    assert!(OsVersion::new(16, 3, 1).at_most(OsVersion::new(16, 4, 0)));
    assert!(!OsVersion::new(16, 4, 0).at_most(OsVersion::new(16, 3, 9)));
    assert!(OsVersion::new(15, 9, 9).at_least(OsVersion::new(15, 4, 0)));
    assert_eq!(OsVersion::new(1, 2, 3).cmp_tuple(), (1, 2, 3));
}

#[test]
fn reasons_render_and_only_supported_is_supported() {
    assert_eq!(IosHvReason::OsTooOld.as_str(), "os-too-old");
    assert!(IosHvReason::Supported.is_supported());
    assert!(!IosHvReason::NoHostFacts.is_supported());
}

#[test]
fn sysctl_facts_build_a_host() {
    let h = host_from_sysctl("iPhone15,3".into(), "16.2", Some(true)).unwrap();
    assert_eq!(h.os, OsVersion::new(16, 2, 0));
    assert_eq!(h.hw_machine, "iPhone15,3");
    assert_eq!(h.has_private_hypervisor_entitlement, None);
    assert!(host_from_sysctl("iPhone15,3".into(), "beta", None).is_none());
}

#[test]
fn live_host_needs_both_sysctl_values() {
    let live = live_ios_hv_host(Some("iPhone15,2".into()), Some("16.3.1".into()), None).unwrap();
    assert_eq!(live.os, OsVersion::new(16, 3, 1));
    assert_eq!(live.hw_machine, "iPhone15,2");
    assert_eq!(live.kernel_hv, None);
    assert!(live_ios_hv_host(None, Some("16.3.1".into()), None).is_none());
    assert!(live_ios_hv_host(Some("iPhone15,2".into()), None, None).is_none());
    assert!(live_ios_hv_host(Some("iPhone15,2".into()), Some("x".into()), None).is_none());
}

#[test]
fn formatted_versions_parse_back() {
    assert_eq!(OsVersion::parse("0.4294967295.7"), Some(OsVersion::new(0, 4294967295, 7)));
    assert_eq!(OsVersion::parse("16"), Some(OsVersion::new(16, 0, 0)));
    assert_eq!(OsVersion::parse(" 16.x.1\n"), Some(OsVersion::new(16, 0, 1)));
}
