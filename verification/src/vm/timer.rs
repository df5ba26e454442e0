//! Deterministic virtual timer and single-vCPU interrupt controller.
use crate::relay_core::{failure, only_failed, RelayError};
use std::collections::BTreeSet;
use vstd::std_specs::btree::{increasing_seq, spec_btree_keys_iter};
use vstd::std_specs::cmp::OrdSpec;
use vstd::std_specs::iter::IteratorSpec;
use vstd::prelude::*;

verus! {

broadcast use {vstd::std_specs::btree::group_btree_axioms, vstd::laws_cmp::group_laws_cmp};


/// In an increasing sequence of lines, the first is below every later one.
proof fn lemma_increasing_first(keys: Seq<&u32>, k: int)
    requires
        increasing_seq(keys),
        0 < k < keys.len(),
    ensures
        *keys[0] < *keys[k],
{
    assert(vstd::laws_cmp::obeys_cmp::<u32>());
    assert(vstd::laws_cmp::obeys_cmp::<&u32>());
    vstd::std_specs::btree::axiom_increasing_seq_meaning(keys);
    assert((&keys[0]).cmp_spec(&&keys[k]) is Less);
    assert(keys[0].cmp_spec(&keys[k]) is Less);
}

/// Pending interrupt lines, acknowledged lowest first.
pub struct Gic {
    pending: BTreeSet<u32>,
}

impl Gic {
    pub closed spec fn wf(&self) -> bool {
        self.pending@.finite()
    }

    /// The pending lines.
    pub closed spec fn view(&self) -> Set<u32> {
        self.pending@
    }

    pub fn new() -> (r: Self)
        ensures
            r.wf(),
            r@ == Set::<u32>::empty(),
    {
        Gic { pending: BTreeSet::new() }
    }

    pub fn raise(&mut self, irq: u32)
        requires
            old(self).wf(),
        ensures
            final(self).wf(),
            final(self)@ == old(self)@.insert(irq),
    {
        self.pending.insert(irq);
    }

    /// Take the lowest pending line.
    pub fn acknowledge(&mut self) -> (r: Option<u32>)
        requires
            old(self).wf(),
        ensures
            final(self).wf(),
            match r {
                None => old(self)@.is_empty() && final(self)@ == old(self)@,
                Some(irq) => {
                    &&& old(self)@.contains(irq)
                    &&& forall|other: u32| old(self)@.contains(other) ==> irq <= other
                    &&& final(self)@ == old(self)@.remove(irq)
                },
            },
    {
        let ghost before = self.pending@;
        let mut found: Option<u32> = None;
        for x in it: self.pending.iter()
            invariant_except_break
                found is None,
                it.index() == 0,
            invariant
                before == self.pending@,
            ensures
                found matches Some(f) ==> before.contains(f) && forall|o: u32| before.contains(o) ==> f <= o,
                found is None ==> before.len() == 0,
        {
            let ghost keys = it.seq();
            assert(keys == spec_btree_keys_iter(&self.pending).remaining());
            assert(keys.unref().to_set() == before);
            assert(increasing_seq(keys));
            assert(*x == *keys[0]);
            assert(before.contains(*x)) by {
                assert(keys.unref()[0] == *x);
            }
            assert forall|o: u32| before.contains(o) implies *x <= o by {
                assert(keys.unref().to_set().contains(o));
                let k = choose|k: int| 0 <= k < keys.unref().len() && keys.unref()[k] == o;
                if k > 0 {
                    lemma_increasing_first(keys, k);
                }
            }
            found = Some(*x);
            break;
        }
        let first = match found {
            Some(f) => f,
            None => {
                assert(before =~= Set::<u32>::empty());
                return None;
            },
        };
        self.pending.remove(&first);
        assert(self.pending@ =~= before.remove(first));
        Some(first)
    }
}

/// A one-shot deadline in instruction ticks that raises one interrupt line.
pub struct Timer {
    ticks: u64,
    deadline: Option<u64>,
    irq: u32,
}

impl Timer {
    pub closed spec fn now(&self) -> u64 {
        self.ticks
    }

    pub closed spec fn armed(&self) -> Option<u64> {
        self.deadline
    }

    pub closed spec fn line(&self) -> u32 {
        self.irq
    }

    pub fn new(irq: u32) -> (r: Self)
        ensures
            r.now() == 0,
            r.armed() is None,
            r.line() == irq,
    {
        Timer { ticks: 0, deadline: None, irq }
    }

    /// Arm the timer for a tick strictly in the future.
    pub fn set_deadline(&mut self, ticks: u64) -> (r: Result<(), RelayError>)
        ensures
            only_failed(r),
            final(self).now() == old(self).now(),
            final(self).line() == old(self).line(),
            ticks <= old(self).now() ==> final(self).armed() == old(self).armed() && failure(r)
                == Err::<(), Seq<char>>("timer deadline must be in the future"@),
            ticks > old(self).now() ==> r is Ok && final(self).armed() == Some(ticks),
    {
        if ticks <= self.ticks {
            return Err(RelayError::Failed(String::from_str("timer deadline must be in the future")));
        }
        self.deadline = Some(ticks);
        Ok(())
    }

    /// Count `instructions` ticks (saturating); a reached deadline raises the
    /// timer's line once and disarms.
    pub fn advance(&mut self, instructions: u64, gic: &mut Gic)
        requires
            old(gic).wf(),
        ensures
            final(gic).wf(),
            final(self).now() == (if old(self).now() + instructions > u64::MAX {
                u64::MAX
            } else {
                (old(self).now() + instructions) as u64
            }),
            final(self).line() == old(self).line(),
            match old(self).armed() {
                Some(d) if final(self).now() >= d => final(self).armed() is None && final(gic)@
                    == old(gic)@.insert(old(self).line()),
                _ => final(self).armed() == old(self).armed() && final(gic)@ == old(gic)@,
            },
    {
        self.ticks = self.ticks.saturating_add(instructions);
        match self.deadline {
            Some(d) => {
                if self.ticks >= d {
                    gic.raise(self.irq);
                    self.deadline = None;
                }
            },
            None => {},
        }
    }
}

} // verus!
