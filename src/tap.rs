use vstd::prelude::*;

verus! {

/// The chunks of `quantum` samples that `all` holds in full, in order.
pub open spec fn full_chunks<T>(all: Seq<T>, quantum: nat) -> Seq<Seq<T>>
    recommends
        quantum > 0,
{
    Seq::new(
        all.len() / quantum,
        |i: int| all.subrange(i * quantum, i * quantum + quantum),
    )
}

/// What is left of `all` after its full chunks of `quantum` samples.
pub open spec fn chunk_rest<T>(all: Seq<T>, quantum: nat) -> Seq<T>
    recommends
        quantum > 0,
{
    all.subrange((all.len() / quantum) * quantum as int, all.len() as int)
}

/// The audio tap's scratch buffer: samples come in blocks of any length from the
/// device callback and leave in chunks of exactly `quantum` samples.
pub struct QuantumBuffer<T> {
    quantum: usize,
    pending: Vec<T>,
}

impl<T: Copy> QuantumBuffer<T> {
    pub closed spec fn spec_quantum(&self) -> nat {
        self.quantum as nat
    }

    /// The samples received and not yet handed out.
    pub closed spec fn spec_pending(&self) -> Seq<T> {
        self.pending@
    }

    /// A buffer hands out whole chunks only: it holds less than one chunk.
    pub closed spec fn wf(&self) -> bool {
        &&& self.quantum > 0
        &&& self.pending@.len() < self.quantum
    }

    /// An empty buffer that hands out chunks of `quantum` samples.
    pub fn new(quantum: usize) -> (r: Self)
        requires
            quantum > 0,
        ensures
            r.wf(),
            r.spec_quantum() == quantum,
            r.spec_pending() == Seq::<T>::empty(),
    {
        QuantumBuffer { quantum, pending: Vec::new() }
    }

    /// Samples per chunk.
    pub fn quantum(&self) -> (r: usize)
        ensures
            r == self.spec_quantum(),
    {
        self.quantum
    }

    /// Samples waiting for the rest of their chunk.
    pub fn pending_len(&self) -> (r: usize)
        ensures
            r == self.spec_pending().len(),
    {
        self.pending.len()
    }

    /// Appends `data` to the pending samples and takes out every full chunk, oldest first.
    pub fn push_samples(&mut self, data: &[T]) -> (chunks: Vec<Vec<T>>)
        requires
            old(self).wf(),
        ensures
            final(self).wf(),
            final(self).spec_quantum() == old(self).spec_quantum(),
            chunks@.len() == full_chunks(
                old(self).spec_pending() + data@,
                old(self).spec_quantum(),
            ).len(),
            forall|i: int|
                0 <= i < chunks@.len() ==> (#[trigger] chunks@[i])@ == full_chunks(
                    old(self).spec_pending() + data@,
                    old(self).spec_quantum(),
                )[i],
            final(self).spec_pending() == chunk_rest(
                old(self).spec_pending() + data@,
                old(self).spec_quantum(),
            ),
    {
        let ghost q = self.quantum as nat;
        let ghost all = self.pending@ + data@;
        let mut buf: Vec<T> = Vec::new();
        let mut i: usize = 0;
        while i < self.pending.len()
            invariant
                i <= self.pending@.len(),
                buf@ == self.pending@.take(i as int),
            decreases self.pending@.len() - i,
        {
            buf.push(self.pending[i]);
            assert(buf@ =~= self.pending@.take(i + 1));
            i += 1;
        }
        let mut j: usize = 0;
        while j < data.len()
            invariant
                j <= data@.len(),
                buf@ == self.pending@ + data@.take(j as int),
            decreases data@.len() - j,
        {
            buf.push(data[j]);
            assert(buf@ =~= self.pending@ + data@.take(j + 1));
            j += 1;
        }
        assert(buf@ =~= all);
        let quantum = self.quantum;
        let total = buf.len();
        let mut chunks: Vec<Vec<T>> = Vec::new();
        let mut start: usize = 0;
        assert(0 * q == 0);
        while buf.len() - start >= quantum
            invariant
                quantum == q,
                q > 0,
                buf@ == all,
                total == all.len(),
                start == chunks@.len() * q,
                start <= all.len(),
                chunks@.len() <= all.len() / q,
                forall|c: int|
                    0 <= c < chunks@.len() ==> (#[trigger] chunks@[c])@ == all.subrange(
                        c * q,
                        c * q + q,
                    ),
            decreases all.len() - start,
        {
            let mut chunk: Vec<T> = Vec::new();
            let mut k: usize = 0;
            while k < quantum
                invariant
                    buf@ == all,
                    total == all.len(),
                    start + quantum <= all.len(),
                    k <= quantum,
                    chunk@ == all.subrange(start as int, start + k),
                decreases quantum - k,
            {
                chunk.push(buf[start + k]);
                assert(chunk@ =~= all.subrange(start as int, start + k + 1));
                k += 1;
            }
            proof {
                vstd::arithmetic::div_mod::lemma_div_is_ordered(start + q, all.len() as int, q as int);
                vstd::arithmetic::div_mod::lemma_div_multiples_vanish(chunks@.len() + 1int, q as int);
                assert((chunks@.len() + 1) * q == start + q) by (nonlinear_arith)
                    requires
                        start == chunks@.len() * q,
                ;
                assert(q * (chunks@.len() + 1) == (chunks@.len() + 1) * q) by (nonlinear_arith);
            }
            chunks.push(chunk);
            start = start + quantum;
        }
        proof {
            vstd::arithmetic::div_mod::lemma_fundamental_div_mod_converse(
                all.len() as int,
                q as int,
                chunks@.len() as int,
                all.len() - start,
            );
            assert(start == (all.len() / q) * q) by (nonlinear_arith)
                requires
                    start == chunks@.len() * q,
                    chunks@.len() == all.len() / q,
            ;
        }
        let mut rest: Vec<T> = Vec::new();
        let mut r: usize = start;
        while r < buf.len()
            invariant
                buf@ == all,
                start <= r <= all.len(),
                rest@ == all.subrange(start as int, r as int),
            decreases all.len() - r,
        {
            rest.push(buf[r]);
            assert(rest@ =~= all.subrange(start as int, r + 1));
            r += 1;
        }
        self.pending = rest;
        proof {
            assert(self.pending@ =~= chunk_rest(all, q));
            assert forall|c: int| 0 <= c < chunks@.len() implies (#[trigger] chunks@[c])@
                == full_chunks(all, q)[c] by {}
        }
        chunks
    }
}

} // verus!
