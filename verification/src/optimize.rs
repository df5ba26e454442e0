//! Guarded semantic acceleration. Only a pure, whole-program affine recurrence
//! is recognized. No memory, host calls, traps, or intermediate observations may
//! occur within it. Fuel remains the original IR cost, independent of speed.
use vstd::prelude::*;

use crate::runtime::{run_from, Op};

verus! {

/// The registers of a recognized loop
/// `value = (value + increment) * multiplier; counter += step; if counter != 0 repeat`.
#[derive(Clone, Copy, Debug, PartialEq, Eq)]
pub struct AffineLoop {
    pub value: u16,
    pub increment: u16,
    pub multiplier: u16,
    pub counter: u16,
    pub step: u16,
}

pub open spec fn distinct5(a: u16, b: u16, c: u16, d: u16, e: u16) -> bool {
    a != b && a != c && a != d && a != e && b != c && b != d && b != e && c != d && c != e && d != e
}

/// The loop that `ops` is, if it is exactly the accelerated pattern.
pub open spec fn recognize_spec(ops: Seq<Op>) -> Option<AffineLoop> {
    if ops.len() != 5 {
        None
    } else {
        match (ops[0], ops[1], ops[2], ops[3], ops[4]) {
            (
                Op::Add { dst: value, lhs: first, rhs: increment },
                Op::Mul { dst: second, lhs: third, rhs: multiplier },
                Op::Add { dst: counter, lhs: fourth, rhs: step },
                Op::JumpIf { condition, target },
                Op::Return { .. },
            ) => if target == 0 && value == first && value == second && value == third && counter
                == fourth && counter == condition && distinct5(
                value,
                increment,
                multiplier,
                counter,
                step,
            ) {
                Some(AffineLoop { value, increment, multiplier, counter, step })
            } else {
                None
            },
            _ => None,
        }
    }
}

/// One loop iteration on the value register.
pub open spec fn body_map(x: u64, inc: u64, mul: u64) -> u64 {
    x.wrapping_add(inc).wrapping_mul(mul)
}

/// `n` loop iterations on the value register.
pub open spec fn iterate(x: u64, inc: u64, mul: u64, n: nat) -> u64
    decreases n,
{
    if n == 0 {
        x
    } else {
        iterate(body_map(x, inc, mul), inc, mul, (n - 1) as nat)
    }
}

/// The affine map `x -> a * x + b` modulo 2^64.
pub open spec fn aff_step(a: u64, b: u64, x: u64) -> u64 {
    a.wrapping_mul(x).wrapping_add(b)
}

/// `n`-fold application of the affine map.
pub open spec fn aff_iter(a: u64, b: u64, x: u64, n: nat) -> u64
    decreases n,
{
    if n == 0 {
        x
    } else {
        aff_iter(a, b, aff_step(a, b, x), (n - 1) as nat)
    }
}

pub open spec fn modulus() -> int {
    0x1_0000_0000_0000_0000
}

proof fn lemma_wrapping_add(x: u64, y: u64)
    ensures
        x.wrapping_add(y) as int == (x as int + y as int) % modulus(),
{
}

proof fn lemma_wrapping_mul(x: u64, y: u64)
    ensures
        x.wrapping_mul(y) as int == (x as int * y as int) % modulus(),
{
}

/// One iteration of the loop body is the affine map with multiplier `mul`
/// and offset `inc * mul`.
proof fn lemma_body_is_affine(x: u64, inc: u64, mul: u64)
    ensures
        body_map(x, inc, mul) == aff_step(mul, inc.wrapping_mul(mul), x),
{
    let m = modulus();
    let (xi, ii, mi) = (x as int, inc as int, mul as int);
    lemma_wrapping_add(x, inc);
    lemma_wrapping_mul(x.wrapping_add(inc), mul);
    lemma_wrapping_mul(mul, x);
    lemma_wrapping_mul(inc, mul);
    lemma_wrapping_add(mul.wrapping_mul(x), inc.wrapping_mul(mul));
    vstd::arithmetic::div_mod::lemma_mul_mod_noop_left(xi + ii, mi, m);
    vstd::arithmetic::mul::lemma_mul_is_distributive_add_other_way(mi, xi, ii);
    vstd::arithmetic::mul::lemma_mul_is_commutative(xi, mi);
    vstd::arithmetic::div_mod::lemma_add_mod_noop(mi * xi, ii * mi, m);
}

/// Squaring an affine map gives the affine map with multiplier `a * a` and
/// offset `a * b + b`.
proof fn lemma_square(a: u64, b: u64, x: u64)
    ensures
        aff_step(a.wrapping_mul(a), a.wrapping_mul(b).wrapping_add(b), x) == aff_step(
            a,
            b,
            aff_step(a, b, x),
        ),
{
    let m = modulus();
    let (ai, bi, xi) = (a as int, b as int, x as int);
    let y = aff_step(a, b, x);
    lemma_wrapping_mul(a, x);
    lemma_wrapping_add(a.wrapping_mul(x), b);
    // y == (a x + b) mod m
    vstd::arithmetic::div_mod::lemma_add_mod_noop(ai * xi, bi, m);
    vstd::arithmetic::div_mod::lemma_small_mod(bi as nat, m as nat);
    assert(y as int == (ai * xi + bi) % m);
    lemma_wrapping_mul(a, y);
    lemma_wrapping_add(a.wrapping_mul(y), b);
    vstd::arithmetic::div_mod::lemma_mul_mod_noop_right(ai, ai * xi + bi, m);
    vstd::arithmetic::div_mod::lemma_add_mod_noop(ai * (ai * xi + bi), bi, m);
    assert(aff_step(a, b, y) as int == (ai * (ai * xi + bi) + bi) % m);
    let a2 = a.wrapping_mul(a);
    let b2 = a.wrapping_mul(b).wrapping_add(b);
    lemma_wrapping_mul(a, a);
    lemma_wrapping_mul(a, b);
    lemma_wrapping_add(a.wrapping_mul(b), b);
    lemma_wrapping_mul(a2, x);
    lemma_wrapping_add(a2.wrapping_mul(x), b2);
    vstd::arithmetic::div_mod::lemma_mul_mod_noop_left(ai * ai, xi, m);
    vstd::arithmetic::div_mod::lemma_add_mod_noop(ai * bi, bi, m);
    vstd::arithmetic::div_mod::lemma_add_mod_noop(ai * ai * xi, ai * bi + bi, m);
    assert(aff_step(a2, b2, x) as int == (ai * ai * xi + (ai * bi + bi)) % m);
    vstd::arithmetic::mul::lemma_mul_is_distributive_add(ai, ai * xi, bi);
    vstd::arithmetic::mul::lemma_mul_is_associative(ai, ai, xi);
}

proof fn lemma_double(a: u64, b: u64, x: u64, k: nat)
    ensures
        aff_iter(a, b, x, 2 * k) == aff_iter(a.wrapping_mul(a), a.wrapping_mul(b).wrapping_add(b), x, k),
    decreases k,
{
    if k > 0 {
        let y = aff_step(a, b, aff_step(a, b, x));
        lemma_square(a, b, x);
        lemma_double(a, b, y, (k - 1) as nat);
        assert(aff_iter(a, b, x, 2 * k) == aff_iter(a, b, aff_step(a, b, x), (2 * k - 1) as nat));
        assert(aff_iter(a, b, aff_step(a, b, x), (2 * k - 1) as nat) == aff_iter(
            a,
            b,
            y,
            (2 * k - 2) as nat,
        ));
        assert((2 * k - 2) as nat == 2 * ((k - 1) as nat));
    }
}

proof fn lemma_iterate_is_affine(x: u64, inc: u64, mul: u64, n: nat)
    ensures
        iterate(x, inc, mul, n) == aff_iter(mul, inc.wrapping_mul(mul), x, n),
    decreases n,
{
    if n > 0 {
        lemma_body_is_affine(x, inc, mul);
        lemma_iterate_is_affine(body_map(x, inc, mul), inc, mul, (n - 1) as nat);
    }
}

/// Exponentiation of the affine map x -> a*x+b modulo 2^64 by squaring.
/// Composition needs no division, so even multipliers and wraparound work.
pub fn affine_power(value: u64, a: u64, b: u64, count: u64) -> (r: u64)
    ensures
        r == aff_iter(a, b, value, count as nat),
{
    let mut value = value;
    let mut a = a;
    let mut b = b;
    let mut count = count;
    let ghost goal = aff_iter(a, b, value, count as nat);
    while count != 0
        invariant
            aff_iter(a, b, value, count as nat) == goal,
        decreases count,
    {
        let odd = count & 1 != 0;
        assert((count & 1 != 0) == (count % 2 == 1)) by (bit_vector);
        assert(count >> 1 == count / 2) by (bit_vector);
        let half = count >> 1;
        if odd {
            assert(aff_iter(a, b, value, count as nat) == aff_iter(
                a,
                b,
                aff_step(a, b, value),
                (count - 1) as nat,
            ));
            value = a.wrapping_mul(value).wrapping_add(b);
            assert((count - 1) as nat == 2 * (half as nat));
            proof {
                lemma_double(a, b, value, half as nat);
            }
        } else {
            assert(count as nat == 2 * (half as nat));
            proof {
                lemma_double(a, b, value, half as nat);
            }
        }
        b = a.wrapping_mul(b).wrapping_add(b);
        a = a.wrapping_mul(a);
        count = half;
    }
    value
}

impl AffineLoop {
    /// Recognizes exactly the five-operation affine loop pattern.
    pub fn recognize(ops: &[Op]) -> (r: Option<Self>)
        ensures
            r == recognize_spec(ops@),
    {
        if ops.len() != 5 {
            return None;
        }
        match (ops[0], ops[1], ops[2], ops[3], ops[4]) {
            (
                Op::Add { dst: value, lhs: first, rhs: increment },
                Op::Mul { dst: second, lhs: third, rhs: multiplier },
                Op::Add { dst: counter, lhs: fourth, rhs: step },
                Op::JumpIf { condition, target },
                Op::Return { .. },
            ) => {
                if target == 0 && value == first && value == second && value == third && counter
                    == fourth && counter == condition && value != increment && value
                    != multiplier && value != counter && value != step && increment != multiplier
                    && increment != counter && increment != step && multiplier != counter
                    && multiplier != step && counter != step {
                    Some(AffineLoop { value, increment, multiplier, counter, step })
                } else {
                    None
                }
            },
            _ => None,
        }
    }

    /// Runs every iteration at once when the counter counts down from a
    /// non-zero start by one and the fuel covers all iterations; otherwise
    /// changes nothing.
    pub fn execute(&self, regs: &mut Vec<u64>, fuel: &mut u64, executed: &mut u64) -> (r: bool)
        requires
            (self.value as int) < old(regs)@.len(),
            (self.increment as int) < old(regs)@.len(),
            (self.multiplier as int) < old(regs)@.len(),
            (self.counter as int) < old(regs)@.len(),
            (self.step as int) < old(regs)@.len(),
            *old(executed) as int + *old(fuel) as int <= u64::MAX,
        ensures
            r <==> ({
                let c = old(regs)@[self.counter as int];
                c >= 1 && old(regs)@[self.step as int] == u64::MAX && 4 * c <= *old(fuel)
            }),
            r ==> {
                let c = old(regs)@[self.counter as int];
                &&& c >= 1
                &&& old(regs)@[self.step as int] == u64::MAX
                &&& 4 * c <= *old(fuel)
                &&& final(regs)@ == old(regs)@.update(
                    self.value as int,
                    iterate(
                        old(regs)@[self.value as int],
                        old(regs)@[self.increment as int],
                        old(regs)@[self.multiplier as int],
                        c as nat,
                    ),
                ).update(self.counter as int, 0)
                &&& *final(fuel) == *old(fuel) - 4 * c
                &&& *final(executed) == *old(executed) + 4 * c
            },
            !r ==> final(regs)@ == old(regs)@ && *final(fuel) == *old(fuel) && *final(executed)
                == *old(executed),
    {
        let count = regs[self.counter as usize];
        // A zero-start do/while executes 2^64 times; it is not an empty loop.
        if count == 0 || regs[self.step as usize] != u64::MAX {
            return false;
        }
        let cost = match count.checked_mul(4) {
            Some(cost) => cost,
            None => {
                return false;
            },
        };
        if cost > *fuel {
            return false;
        }
        let multiplier = regs[self.multiplier as usize];
        let increment = regs[self.increment as usize].wrapping_mul(multiplier);
        let value = affine_power(regs[self.value as usize], multiplier, increment, count);
        proof {
            lemma_iterate_is_affine(
                regs@[self.value as int],
                regs@[self.increment as int],
                multiplier,
                count as nat,
            );
        }
        regs.set(self.value as usize, value);
        regs.set(self.counter as usize, 0);
        *fuel = *fuel - cost;
        *executed = *executed + cost;
        true
    }
}

/// The registers of a recognized loop are registers of the program.
pub proof fn lemma_loop_registers(ops: Seq<Op>, a: AffineLoop, n: nat)
    requires
        recognize_spec(ops) == Some(a),
        crate::runtime::program_wf(ops, n),
    ensures
        (a.value as int) < n,
        (a.increment as int) < n,
        (a.multiplier as int) < n,
        (a.counter as int) < n,
        (a.step as int) < n,
{
    assert(crate::runtime::op_fault(ops, n, 0) == 0);
    assert(crate::runtime::op_fault(ops, n, 1) == 0);
    assert(crate::runtime::op_fault(ops, n, 2) == 0);
}

/// Running the recognized loop from its start performs `c` iterations of four
/// operations each and reaches the return with the value register advanced
/// `c` times and the counter at zero.
pub proof fn lemma_loop_runs(
    ops: Seq<Op>,
    a: AffineLoop,
    regs: Seq<u64>,
    mem: Seq<u8>,
    fuel: nat,
    executed: nat,
    c: nat,
)
    requires
        recognize_spec(ops) == Some(a),
        (a.value as int) < regs.len(),
        (a.increment as int) < regs.len(),
        (a.multiplier as int) < regs.len(),
        (a.counter as int) < regs.len(),
        (a.step as int) < regs.len(),
        regs[a.step as int] == u64::MAX,
        regs[a.counter as int] == c,
        c >= 1,
        4 * c <= fuel,
    ensures
        run_from(ops, 0, regs, mem, fuel, executed) == run_from(
            ops,
            4,
            regs.update(
                a.value as int,
                iterate(
                    regs[a.value as int],
                    regs[a.increment as int],
                    regs[a.multiplier as int],
                    c,
                ),
            ).update(a.counter as int, 0),
            mem,
            (fuel - 4 * c) as nat,
            executed + 4 * c,
        ),
    decreases c,
{
    let (v, inc, mul, ctr, st) = (
        a.value as int,
        a.increment as int,
        a.multiplier as int,
        a.counter as int,
        a.step as int,
    );
    let r1 = regs.update(v, regs[v].wrapping_add(regs[inc]));
    let r2 = r1.update(v, r1[v].wrapping_mul(r1[mul]));
    let r3 = r2.update(ctr, r2[ctr].wrapping_add(r2[st]));
    assert(run_from(ops, 0, regs, mem, fuel, executed) == run_from(
        ops,
        1,
        r1,
        mem,
        (fuel - 1) as nat,
        executed + 1,
    ));
    assert(run_from(ops, 1, r1, mem, (fuel - 1) as nat, executed + 1) == run_from(
        ops,
        2,
        r2,
        mem,
        (fuel - 2) as nat,
        executed + 2,
    ));
    assert(run_from(ops, 2, r2, mem, (fuel - 2) as nat, executed + 2) == run_from(
        ops,
        3,
        r3,
        mem,
        (fuel - 3) as nat,
        executed + 3,
    ));
    assert(r3[ctr] == c - 1);
    assert(r2[v] == body_map(regs[v], regs[inc], regs[mul]));
    let x = regs[v];
    if c == 1 {
        assert(run_from(ops, 3, r3, mem, (fuel - 3) as nat, executed + 3) == run_from(
            ops,
            4,
            r3,
            mem,
            (fuel - 4) as nat,
            executed + 4,
        ));
        assert(iterate(body_map(x, regs[inc], regs[mul]), regs[inc], regs[mul], 0) == body_map(x, regs[inc], regs[mul]));
        assert(iterate(x, regs[inc], regs[mul], 1) == body_map(x, regs[inc], regs[mul]));
        assert(r3 =~= regs.update(v, iterate(x, regs[inc], regs[mul], c)).update(ctr, 0));
    } else {
        assert(run_from(ops, 3, r3, mem, (fuel - 3) as nat, executed + 3) == run_from(
            ops,
            0,
            r3,
            mem,
            (fuel - 4) as nat,
            executed + 4,
        ));
        lemma_loop_runs(ops, a, r3, mem, (fuel - 4) as nat, executed + 4, (c - 1) as nat);
        assert(iterate(r3[v], regs[inc], regs[mul], (c - 1) as nat) == iterate(
            x,
            regs[inc],
            regs[mul],
            c,
        ));
        assert(r3.update(v, iterate(r3[v], r3[inc], r3[mul], (c - 1) as nat)).update(ctr, 0)
            =~= regs.update(v, iterate(x, regs[inc], regs[mul], c)).update(ctr, 0));
        assert((fuel - 4) as nat - 4 * (c - 1) == fuel - 4 * c);
    }
}

} // verus!
