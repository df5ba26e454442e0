use wawona_relay::bench::{
    asbestos_class_run, escape, expected, gate_pass, is_interpreter_sample, is_jit_sample, is_page_sample,
    tcti_class_run, unicorn_class_run,
};

fn reference(mut value: u64, count: u64) -> u64 {
    for _ in 0..count {
        value = value.wrapping_add(7).wrapping_mul(3);
    }
    value
}

#[test]
fn reference_interpreters_agree_with_the_native_recurrence() {
    for count in [1u64, 2, 3, 1000, 1_000_000] {
        let want = reference(5, count);
        assert_eq!(expected(5, count), want);
        assert_eq!(asbestos_class_run(5, count), want);
        assert_eq!(unicorn_class_run(5, count), want);
        assert_eq!(tcti_class_run(5, count), want);
    }
    assert_eq!(expected(5, 0), 5);
    assert_eq!(unicorn_class_run(5, 0), 5);
    assert_eq!(expected(5, 1), 36);
    assert_eq!(expected(u64::MAX, 1), 18);
}

#[test]
fn charts_pick_their_samples() {
    assert!(is_interpreter_sample("relay-static-cpu"));
    assert!(is_interpreter_sample("ref-tcti-class"));
    assert!(is_interpreter_sample("competitor-unicorn"));
    assert!(!is_interpreter_sample("relay-static-jit"));
    assert!(!is_interpreter_sample("page-4k-16k"));
    assert!(!is_interpreter_sample("microvm-nixos"));
    assert!(is_page_sample("page-4k-16k"));
    assert!(!is_page_sample("relay-static-cpu"));
    assert!(is_jit_sample("cross-class-jit-utm"));
    assert!(!is_jit_sample("ref-native"));
}

fn samples(list: &[(&str, &str)]) -> Vec<(String, String)> {
    list.iter().map(|(n, s)| (n.to_string(), s.to_string())).collect()
}

#[test]
fn mode_a_gate_ignores_jit_lanes() {
    let base = [
        ("page-4k-16k", "ok"),
        ("relay-static-cpu", "ok"),
        ("ref-native", "ok"),
        ("competitor-tcti", "skipped"),
        ("cross-class-jit-utm", "skipped"),
        ("microvm-nixos", "skipped"),
    ];
    assert!(gate_pass(&samples(&base), false));
    assert!(!gate_pass(&samples(&base), true));
    let mut failing = base.to_vec();
    failing[1] = ("relay-static-cpu", "fail");
    assert!(!gate_pass(&samples(&failing), false));
    let mut strict_ok = base.to_vec();
    strict_ok[3] = ("competitor-tcti", "ok");
    assert!(gate_pass(&samples(&strict_ok), true));
    assert!(gate_pass(&samples(&[]), true));
}

#[test]
fn chart_labels_escape_markup() {
    assert_eq!(escape("a<b> & \"c\" é"), "a&lt;b&gt; &amp; &quot;c&quot; é");
    assert_eq!(escape(""), "");
}
