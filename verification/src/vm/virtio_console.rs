//! Bounded virtio-console buffers for guest boot logs and interactive input.
use std::collections::VecDeque;
use vstd::prelude::*;

verus! {

/// Pending input and the most recent output, each bounded by `limit` bytes.
pub struct Console {
    input: VecDeque<u8>,
    output: Vec<u8>,
    limit: usize,
}

/// The last `limit` bytes of `s`.
pub open spec fn keep_last(s: Seq<u8>, limit: nat) -> Seq<u8> {
    if s.len() > limit {
        s.subrange(s.len() - limit, s.len() as int)
    } else {
        s
    }
}

impl Console {
    pub closed spec fn input_view(&self) -> Seq<u8> {
        self.input@
    }

    pub closed spec fn output_view(&self) -> Seq<u8> {
        self.output@
    }

    pub closed spec fn capacity(&self) -> usize {
        self.limit
    }

    pub fn new(limit: usize) -> (r: Self)
        ensures
            r.input_view() == Seq::<u8>::empty(),
            r.output_view() == Seq::<u8>::empty(),
            r.capacity() == limit,
    {
        Console { input: VecDeque::new(), output: Vec::new(), limit }
    }

    /// Queue input; bytes beyond the limit are dropped.
    pub fn push_input(&mut self, bytes: &[u8])
        ensures
            final(self).capacity() == old(self).capacity(),
            final(self).output_view() == old(self).output_view(),
            final(self).input_view() == old(self).input_view() + bytes@.take(
                if old(self).input_view().len() >= old(self).capacity() {
                    0
                } else if bytes@.len() < old(self).capacity() - old(self).input_view().len() {
                    bytes@.len() as int
                } else {
                    old(self).capacity() - old(self).input_view().len()
                },
            ),
    {
        let room = self.limit.saturating_sub(self.input.len());
        let n = if bytes.len() < room {
            bytes.len()
        } else {
            room
        };
        let ghost before = self.input@;
        let mut i: usize = 0;
        while i < n
            invariant
                i <= n <= bytes@.len(),
                self.input@ == before + bytes@.take(i as int),
                self.limit == old(self).limit,
                self.output == old(self).output,
            decreases n - i,
        {
            self.input.push_back(bytes[i]);
            assert(bytes@.take(i + 1) == bytes@.take(i as int).push(bytes[i as int]));
            i = i + 1;
        }
    }

    /// Move up to `out.len()` queued input bytes into `out`; how many moved.
    pub fn read_input(&mut self, out: &mut [u8]) -> (n: usize)
        ensures
            n == (if old(out)@.len() < old(self).input_view().len() {
                old(out)@.len()
            } else {
                old(self).input_view().len()
            }),
            final(out)@ == old(self).input_view().take(n as int) + old(out)@.skip(n as int),
            final(self).input_view() == old(self).input_view().skip(n as int),
            final(self).output_view() == old(self).output_view(),
            final(self).capacity() == old(self).capacity(),
    {
        let n = if out.len() < self.input.len() {
            out.len()
        } else {
            self.input.len()
        };
        let ghost before = self.input@;
        let ghost out0 = out@;
        let mut i: usize = 0;
        while i < n
            invariant
                i <= n <= before.len(),
                n <= out0.len(),
                out@.len() == out0.len(),
                self.input@ == before.skip(i as int),
                forall|k: int| 0 <= k < i ==> out@[k] == before[k],
                forall|k: int| i <= k < out0.len() ==> out@[k] == out0[k],
                self.limit == old(self).limit,
                self.output == old(self).output,
            decreases n - i,
        {
            let b = match self.input.pop_front() {
                Some(b) => b,
                None => {
                    assert(false);
                    0
                },
            };
            out[i] = b;
            assert(before.skip(i + 1) =~= before.skip(i as int).drop_first());
            i = i + 1;
        }
        assert(out@ =~= before.take(n as int) + out0.skip(n as int));
        n
    }

    /// Append output, keeping only the most recent `limit` bytes.
    pub fn write_output(&mut self, bytes: &[u8])
        ensures
            final(self).output_view() == keep_last(
                old(self).output_view() + bytes@,
                old(self).capacity() as nat,
            ),
            final(self).input_view() == old(self).input_view(),
            final(self).capacity() == old(self).capacity(),
    {
        let total = self.output.len() as u128 + bytes.len() as u128;
        let ghost joined = self.output@ + bytes@;
        let mut kept: Vec<u8> = Vec::new();
        let skip: u128 = if total > self.limit as u128 {
            total - self.limit as u128
        } else {
            0
        };
        let mut k: u128 = skip;
        while k < total
            invariant
                skip <= k <= total,
                total == joined.len(),
                joined == self.output@ + bytes@,
                kept@ == joined.subrange(skip as int, k as int),
                self.input == old(self).input,
                self.output == old(self).output,
                self.limit == old(self).limit,
            decreases total - k,
        {
            let b = if k < self.output.len() as u128 {
                self.output[k as usize]
            } else {
                bytes[(k - self.output.len() as u128) as usize]
            };
            kept.push(b);
            assert(joined.subrange(skip as int, k + 1) =~= joined.subrange(skip as int, k as int).push(joined[k as int]));
            k = k + 1;
        }
        assert(kept@ =~= keep_last(joined, self.limit as nat));
        self.output = kept;
    }

    pub fn output(&self) -> (r: &[u8])
        ensures
            r@ == self.output_view(),
    {
        self.output.as_slice()
    }
}

} // verus!
