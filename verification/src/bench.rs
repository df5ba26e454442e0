//! Benchmark rules: the reference interpreters that stand for App Store-class
//! competitors, which samples each chart shows, and when the Mode A gate passes.
//! Timing and charts are the host's.
use vstd::prelude::*;
use crate::text::{str_eq, str_starts_with, starts_with_chars};

verus! {

/// One step of the benchmark recurrence: wrap-add 7, then wrap-multiply by 3.
pub open spec fn step(v: u64) -> u64 {
    (((v + 7) % 0x1_0000_0000_0000_0000) * 3 % 0x1_0000_0000_0000_0000) as u64
}

/// The recurrence applied `n` times to `v`.
pub open spec fn recurrence(v: u64, n: nat) -> u64
    decreases n,
{
    if n == 0 {
        v
    } else {
        step(recurrence(v, (n - 1) as nat))
    }
}

fn step_exec(v: u64) -> (r: u64)
    ensures
        r == step(v),
{
    v.wrapping_add(7).wrapping_mul(3)
}

/// The native recurrence: the floor the interpreters are charted against.
pub fn expected(value: u64, count: u64) -> (r: u64)
    ensures
        r == recurrence(value, count as nat),
{
    let mut v = value;
    let mut i: u64 = 0;
    while i < count
        invariant
            i <= count,
            v == recurrence(value, i as nat),
        decreases count - i,
    {
        v = step_exec(v);
        i = i + 1;
    }
    v
}

/// The operations of the switch-threaded (asbestos-class) reference.
#[derive(Clone, Copy)]
enum Op {
    Add7,
    Mul3,
    Dec,
    Ret,
}

/// The switch-threaded interpreter over `[add 7, mul 3, dec-and-loop, ret]`.
/// It runs its body at least once, so it needs a count of at least one.
pub fn asbestos_class_run(value: u64, count: u64) -> (r: u64)
    requires
        count >= 1,
    ensures
        r == recurrence(value, count as nat),
{
    let program = [Op::Add7, Op::Mul3, Op::Dec, Op::Ret];
    let mut v = value;
    let mut left = count;
    let mut pc: usize = 0;
    let mut done: u64 = 0;
    loop
        invariant
            program@ == seq![Op::Add7, Op::Mul3, Op::Dec, Op::Ret],
            pc <= 3,
            left + done == count,
            done < count || (done == count && pc == 3),
            left >= 1 || pc == 3,
            pc == 0 ==> v == recurrence(value, done as nat),
            pc == 1 ==> v == ((recurrence(value, done as nat) + 7) % 0x1_0000_0000_0000_0000) as u64,
            pc == 2 ==> v == recurrence(value, (done + 1) as nat),
            pc == 3 ==> v == recurrence(value, count as nat),
        ensures
            v == recurrence(value, count as nat),
        decreases left, 3 - pc,
    {
        match program[pc] {
            Op::Add7 => {
                v = v.wrapping_add(7);
                pc = pc + 1;
            },
            Op::Mul3 => {
                v = v.wrapping_mul(3);
                pc = pc + 1;
            },
            Op::Dec => {
                left = left - 1;
                done = done + 1;
                pc = if left == 0 {
                    3
                } else {
                    0
                };
            },
            Op::Ret => {
                break;
            },
        }
    }
    v
}

/// The heavy-bookkeeping (Unicorn-class) reference: a faux CPU context that
/// touches a scratch slot on every step.
pub fn unicorn_class_run(value: u64, count: u64) -> (r: u64)
    ensures
        r == recurrence(value, count as nat),
{
    let mut x0 = value;
    let mut left = count;
    let mut scratch: Vec<u8> = Vec::new();
    let mut k: usize = 0;
    while k < 64
        invariant
            k <= 64,
            scratch@.len() == k,
        decreases 64 - k,
    {
        scratch.push(0);
        k = k + 1;
    }
    while left > 0
        invariant
            left <= count,
            scratch@.len() == 64,
            x0 == recurrence(value, (count - left) as nat),
        decreases left,
    {
        x0 = step_exec(x0);
        left = left - 1;
        let slot = (left % 64) as usize;
        let touched = scratch[slot].wrapping_add(1);
        scratch.set(slot, touched);
    }
    x0
}

/// The bytecode (TCTI-class) reference: `0` adds 7, `1` multiplies by 3, `2`
/// loops or ends. Like the switch-threaded one it needs a count of at least one.
pub fn tcti_class_run(value: u64, count: u64) -> (r: u64)
    requires
        count >= 1,
    ensures
        r == recurrence(value, count as nat),
{
    let code: [u8; 3] = [0, 1, 2];
    let mut v = value;
    let mut left = count;
    let mut pc: usize = 0;
    loop
        invariant_except_break
            code@ == seq![0u8, 1u8, 2u8],
            pc <= 2,
            1 <= left <= count,
            pc == 0 ==> v == recurrence(value, (count - left) as nat),
            pc == 1 ==> v == ((recurrence(value, (count - left) as nat) + 7) % 0x1_0000_0000_0000_0000) as u64,
            pc == 2 ==> v == recurrence(value, (count - left + 1) as nat),
        ensures
            v == recurrence(value, count as nat),
        decreases left, 2 - pc,
    {
        let op = code[pc];
        if op == 0 {
            v = v.wrapping_add(7);
            pc = pc + 1;
        } else if op == 1 {
            v = v.wrapping_mul(3);
            pc = pc + 1;
        } else {
            left = left - 1;
            if left == 0 {
                break;
            }
            pc = 0;
        }
    }
    v
}

// ---------------------------------------------------------------------------
// Chart selection and the Mode A verdict
// ---------------------------------------------------------------------------

pub open spec fn has_text(s: Seq<char>, part: Seq<char>) -> bool {
    exists|i: int| 0 <= i && i + part.len() <= s.len() && #[trigger] s.subrange(i, i + part.len()) == part
}

/// The samples of the Mode A interpreter chart: Relay's static CPU, the native
/// floor, the reference interpreters and their external competitors; never a
/// JIT lane.
pub open spec fn interpreter_sample(name: Seq<char>) -> bool {
    !has_text(name, "jit"@) && (starts_with_chars(name, "relay-static"@) || name == "ref-native"@
        || name == "ref-asbestos-class"@ || name == "ref-unicorn-class"@ || name
        == "ref-tcti-class"@ || name == "competitor-asbestos"@ || name == "competitor-unicorn"@
        || name == "competitor-tcti"@)
}

pub open spec fn page_sample(name: Seq<char>) -> bool {
    starts_with_chars(name, "page-"@)
}

/// The extra samples of the cross-class chart: the JIT lanes.
pub open spec fn jit_sample(name: Seq<char>) -> bool {
    has_text(name, "jit"@)
}

pub(crate) fn contains_text(s: &str, part: &str) -> (r: bool)
    ensures
        r == has_text(s@, part@),
{
    let n = s.unicode_len();
    let m = part.unicode_len();
    if m == 0 {
        assert(s@.subrange(0, 0 + part@.len() as int) =~= part@);
        return true;
    }
    if m > n {
        proof {
            if has_text(s@, part@) {
                let i = choose|i: int| 0 <= i && i + part@.len() <= s@.len() && #[trigger] s@.subrange(i, i + part@.len()) == part@;
            }
        }
        return false;
    }
    let mut i: usize = 0;
    while i <= n - m
        invariant
            n == s@.len(),
            m == part@.len(),
            1 <= m <= n,
            i <= n - m + 1,
            forall|j: int| 0 <= j < i ==> #[trigger] s@.subrange(j, j + m) != part@,
        decreases n - m + 1 - i,
    {
        if str_eq(s.substring_char(i, i + m), part) {
            return true;
        }
        i = i + 1;
    }
    proof {
        if has_text(s@, part@) {
            let j = choose|j: int| 0 <= j && j + part@.len() <= s@.len() && #[trigger] s@.subrange(j, j + part@.len()) == part@;
            assert(s@.subrange(j, j + m) != part@);
        }
    }
    false
}

pub fn is_interpreter_sample(name: &str) -> (r: bool)
    ensures
        r == interpreter_sample(name@),
{
    if contains_text(name, "jit") {
        return false;
    }
    str_starts_with(name, "relay-static") || str_eq(name, "ref-native") || str_eq(
        name,
        "ref-asbestos-class",
    ) || str_eq(name, "ref-unicorn-class") || str_eq(name, "ref-tcti-class") || str_eq(
        name,
        "competitor-asbestos",
    ) || str_eq(name, "competitor-unicorn") || str_eq(name, "competitor-tcti")
}

pub fn is_page_sample(name: &str) -> (r: bool)
    ensures
        r == page_sample(name@),
{
    str_starts_with(name, "page-")
}

pub fn is_jit_sample(name: &str) -> (r: bool)
    ensures
        r == jit_sample(name@),
{
    contains_text(name, "jit")
}

/// A sample's name and status (`ok`, `fail` or `skipped`).
pub type SampleView = (Seq<char>, Seq<char>);

pub open spec fn gated(name: Seq<char>) -> bool {
    starts_with_chars(name, "relay-"@) || starts_with_chars(name, "page-"@) || starts_with_chars(
        name,
        "ref-"@,
    )
}

pub open spec fn mode_a_competitor(name: Seq<char>) -> bool {
    name == "competitor-asbestos"@ || name == "competitor-unicorn"@ || name == "competitor-tcti"@
}

/// The Mode A gate: every Relay, page and reference sample is `ok`, and, when
/// competitors are strict, no Mode A competitor was skipped.
pub open spec fn gate(samples: Seq<SampleView>, strict_competitors: bool) -> bool {
    let relay_ok = forall|i: int|
        0 <= i < samples.len() && gated(#[trigger] samples[i].0) ==> samples[i].1 == "ok"@;
    let missing = exists|i: int|
        0 <= i < samples.len() && mode_a_competitor(#[trigger] samples[i].0) && samples[i].1
            == "skipped"@;
    relay_ok && !(strict_competitors && missing)
}

pub open spec fn sample_views(samples: Seq<(String, String)>) -> Seq<SampleView> {
    samples.map_values(|s: (String, String)| (s.0@, s.1@))
}

/// Whether the Mode A gate passes for samples given as `(name, status)`.
pub fn gate_pass(samples: &Vec<(String, String)>, strict_competitors: bool) -> (r: bool)
    ensures
        r == gate(sample_views(samples@), strict_competitors),
{
    let ghost views = sample_views(samples@);
    let mut relay_ok = true;
    let mut missing = false;
    let mut i: usize = 0;
    while i < samples.len()
        invariant
            views == sample_views(samples@),
            i <= samples@.len(),
            relay_ok == (forall|j: int|
                0 <= j < i && gated(#[trigger] views[j].0) ==> views[j].1 == "ok"@),
            missing == (exists|j: int|
                0 <= j < i && mode_a_competitor(#[trigger] views[j].0) && views[j].1
                    == "skipped"@),
        decreases samples@.len() - i,
    {
        let name = samples[i].0.as_str();
        let status = samples[i].1.as_str();
        assert(views[i as int] == (name@, status@));
        let is_gated = str_starts_with(name, "relay-") || str_starts_with(name, "page-")
            || str_starts_with(name, "ref-");
        if is_gated && !str_eq(status, "ok") {
            relay_ok = false;
        }
        let competitor = str_eq(name, "competitor-asbestos") || str_eq(name, "competitor-unicorn")
            || str_eq(name, "competitor-tcti");
        if competitor && str_eq(status, "skipped") {
            missing = true;
        }
        proof {
            let ghost bad_here = gated(views[i as int].0) && views[i as int].1 != "ok"@;
            let ghost skipped_here = mode_a_competitor(views[i as int].0) && views[i as int].1
                == "skipped"@;
            assert(is_gated == gated(views[i as int].0)) by {
                reveal_strlit("relay-");
                reveal_strlit("page-");
                reveal_strlit("ref-");
            }
            if relay_ok {
                assert forall|j: int| 0 <= j < i + 1 && gated(#[trigger] views[j].0) implies views[j].1
                    == "ok"@ by {
                    if j == i {
                        assert(!bad_here);
                    }
                }
            } else {
                if !bad_here {
                    let j = choose|j: int|
                        0 <= j < i && gated(#[trigger] views[j].0) && views[j].1 != "ok"@;
                    assert(0 <= j < i + 1 && gated(views[j].0) && views[j].1 != "ok"@);
                } else {
                    assert(0 <= i < i + 1 && gated(views[i as int].0) && views[i as int].1 != "ok"@);
                }
            }
            if missing {
                if skipped_here {
                    assert(0 <= i < i + 1 && mode_a_competitor(views[i as int].0) && views[i as int].1
                        == "skipped"@);
                } else {
                    let j = choose|j: int|
                        0 <= j < i && mode_a_competitor(#[trigger] views[j].0) && views[j].1
                            == "skipped"@;
                    assert(0 <= j < i + 1 && mode_a_competitor(views[j].0) && views[j].1
                        == "skipped"@);
                }
            } else {
                assert forall|j: int| 0 <= j < i + 1 && mode_a_competitor(#[trigger] views[j].0) implies views[j].1
                    != "skipped"@ by {
                    if j == i {
                        assert(!skipped_here);
                    }
                }
            }
        }
        i = i + 1;
    }
    relay_ok && !(strict_competitors && missing)
}

/// A JIT lane never fails the Mode A gate: adding or changing a JIT sample that
/// is neither gated nor a Mode A competitor leaves the verdict as it was.
pub proof fn lemma_jit_never_gates(
    samples: Seq<SampleView>,
    jit: SampleView,
    strict_competitors: bool,
)
    requires
        !gated(jit.0),
        !mode_a_competitor(jit.0),
    ensures
        gate(samples.push(jit), strict_competitors) == gate(samples, strict_competitors),
{
    let s2 = samples.push(jit);
    assert(forall|i: int| 0 <= i < samples.len() ==> s2[i] == samples[i]);
    if gate(samples, strict_competitors) {
        assert forall|i: int| 0 <= i < s2.len() && gated(#[trigger] s2[i].0) implies s2[i].1 == "ok"@ by {
            if i < samples.len() {
                assert(s2[i] == samples[i]);
            }
        }
    }
    if !strict_competitors || !(exists|i: int|
        0 <= i < samples.len() && mode_a_competitor(#[trigger] samples[i].0) && samples[i].1
            == "skipped"@) {
        if exists|i: int|
            0 <= i < s2.len() && mode_a_competitor(#[trigger] s2[i].0) && s2[i].1 == "skipped"@ {
            let i = choose|i: int|
                0 <= i < s2.len() && mode_a_competitor(#[trigger] s2[i].0) && s2[i].1
                    == "skipped"@;
            assert(i < samples.len());
            assert(s2[i] == samples[i]);
        }
    }
    if gate(s2, strict_competitors) {
        assert forall|i: int| 0 <= i < samples.len() && gated(#[trigger] samples[i].0) implies samples[i].1 == "ok"@ by {
            assert(s2[i] == samples[i]);
        }
        if strict_competitors && exists|i: int|
            0 <= i < samples.len() && mode_a_competitor(#[trigger] samples[i].0) && samples[i].1
                == "skipped"@ {
            let i = choose|i: int|
                0 <= i < samples.len() && mode_a_competitor(#[trigger] samples[i].0) && samples[i].1
                    == "skipped"@;
            assert(s2[i] == samples[i]);
        }
    }
}

/// Consecutive gate passes needed before a run is marketing-eligible.
pub const MARKETING_STREAK_N: u32 = 5;

/// The pass streak after a run, and whether the run is marketing-eligible: a
/// failing run resets the streak, a passing one extends it (saturating), and
/// only a passing run that reaches the required streak is eligible.
pub fn marketing_streak(gate_pass: bool, previous: u32) -> (r: (u32, bool))
    ensures
        r.0 == if !gate_pass {
            0
        } else if previous < u32::MAX {
            (previous + 1) as u32
        } else {
            u32::MAX
        },
        r.1 == (gate_pass && r.0 >= MARKETING_STREAK_N),
{
    let consecutive = if gate_pass {
        previous.saturating_add(1)
    } else {
        0
    };
    (consecutive, gate_pass && consecutive >= MARKETING_STREAK_N)
}

/// What one character of a chart label becomes in SVG text.
pub open spec fn escaped_char(c: char) -> Seq<char> {
    if c == '&' {
        "&amp;"@
    } else if c == '<' {
        "&lt;"@
    } else if c == '>' {
        "&gt;"@
    } else if c == '"' {
        "&quot;"@
    } else {
        seq![c]
    }
}

/// A chart label with `&`, `<`, `>` and `"` written as SVG entities.
pub open spec fn escaped(s: Seq<char>) -> Seq<char>
    decreases s.len(),
{
    if s.len() == 0 {
        Seq::empty()
    } else {
        escaped(s.drop_last()) + escaped_char(s.last())
    }
}

/// `text` with `&`, `<`, `>` and `"` written as SVG entities.
pub fn escape(text: &str) -> (r: String)
    ensures
        r@ == escaped(text@),
{
    let n = text.unicode_len();
    let mut out = String::new();
    let mut i: usize = 0;
    while i < n
        invariant
            i <= n,
            n == text@.len(),
            out@ == escaped(text@.subrange(0, i as int)),
        decreases n - i,
    {
        let c = text.get_char(i);
        assert(text@.subrange(0, i + 1).drop_last() =~= text@.subrange(0, i as int));
        if c == '&' {
            out.append("&amp;");
        } else if c == '<' {
            out.append("&lt;");
        } else if c == '>' {
            out.append("&gt;");
        } else if c == '"' {
            out.append("&quot;");
        } else {
            let one = text.substring_char(i, i + 1);
            out.append(one);
        }
        i = i + 1;
    }
    assert(text@.subrange(0, n as int) =~= text@);
    out
}

} // verus!
