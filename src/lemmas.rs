use vstd::prelude::*;
use crate::challenger::{keeps_width, Transcript};

verus! {

/// With an empty input buffer, observing the first `k < width` values of
/// `vs` only buffers them.
proof fn lemma_observe_prefix<W>(t: Transcript<W>, vs: Seq<W>, perm: spec_fn(Seq<W>) -> Seq<W>, k: nat)
    requires
        t.wf(),
        t.input.len() == 0,
        vs.len() == t.width(),
        k < t.width(),
    ensures
        t.observed_all(vs.take(k as int), perm) == (Transcript {
            state: t.state,
            input: vs.take(k as int),
            output: if k == 0 {
                t.output
            } else {
                Seq::<W>::empty()
            },
        }),
    decreases k,
{
    if k == 0 {
        assert(vs.take(0) =~= Seq::<W>::empty());
        assert(t.input =~= Seq::<W>::empty());
    } else {
        let p = vs.take(k as int);
        assert(p.drop_last() =~= vs.take(k - 1));
        lemma_observe_prefix(t, vs, perm, (k - 1) as nat);
        assert(vs.take(k - 1).push(p.last()) =~= p);
    }
}

/// Releasing `n` outputs that are already fresh runs no permutation and
/// hands them out from the last one backwards.
proof fn lemma_drain<W>(t: Transcript<W>, perm: spec_fn(Seq<W>) -> Seq<W>, n: nat)
    requires
        t.wf(),
        t.input.len() == 0,
        n <= t.output.len(),
    ensures
        t.sampled_n(perm, n).2 == 0,
        t.sampled_n(perm, n).1.len() == n,
        forall|i: int|
            0 <= i < n ==> #[trigger] t.sampled_n(perm, n).1[i] == t.output[t.output.len() - 1
                - i],
        t.sampled_n(perm, n).0 == (Transcript {
            state: t.state,
            input: t.input,
            output: t.output.take(t.output.len() - n),
        }),
    decreases n,
{
    if n == 0 {
        assert(t.output.take(t.output.len() as int) =~= t.output);
    } else {
        let p = t.popped();
        lemma_drain(p, perm, (n - 1) as nat);
        assert(p.output.take(p.output.len() - (n - 1)) =~= t.output.take(t.output.len() - n));
        let outs = t.sampled_n(perm, n).1;
        assert forall|i: int| 0 <= i < n implies #[trigger] outs[i] == t.output[t.output.len() - 1
            - i] by {
            if i > 0 {
                assert(outs[i] == p.sampled_n(perm, (n - 1) as nat).1[i - 1]);
            }
        }
    }
}

/// With no pending input, one sample past the fresh outputs runs exactly
/// one permutation.
proof fn lemma_drain_then_refill<W>(t: Transcript<W>, perm: spec_fn(Seq<W>) -> Seq<W>)
    requires
        t.wf(),
        t.input.len() == 0,
    ensures
        t.sampled_n(perm, t.output.len() + 1).2 == 1,
    decreases t.output.len(),
{
    let n = t.output.len();
    let (u, _v) = t.sampled(perm);
    if n > 0 {
        assert(u == t.popped());
        assert(u.output.len() + 1 == n);
        lemma_drain_then_refill(u, perm);
    } else {
        assert(u.sampled_n(perm, 0).2 == 0);
    }
}

/// Observing a full batch of `width` values on an empty input buffer
/// duplexes the sponge with exactly those values as its state: the next
/// `width` samples release the permuted state from its last wire to its
/// first without another permutation, and one more sample runs the next
/// permutation.
pub proof fn lemma_full_batch<W>(t: Transcript<W>, vs: Seq<W>, perm: spec_fn(Seq<W>) -> Seq<W>)
    requires
        t.wf(),
        t.input.len() == 0,
        vs.len() == t.width(),
        keeps_width(perm, t.width()),
    ensures
        t.observed_all(vs, perm) == (Transcript { state: perm(vs), input: Seq::<W>::empty(), output: perm(vs) }),
        t.observed_all(vs, perm).sampled_n(perm, t.width()).2 == 0,
        t.observed_all(vs, perm).sampled_n(perm, t.width()).1.len() == t.width(),
        forall|i: int|
            0 <= i < t.width() ==> #[trigger] t.observed_all(vs, perm).sampled_n(
                perm,
                t.width(),
            ).1[i] == perm(vs)[t.width() - 1 - i],
        t.observed_all(vs, perm).sampled_n(perm, t.width() + 1).2 == 1,
{
    let w = t.width();
    lemma_observe_prefix(t, vs, perm, (w - 1) as nat);
    assert(vs.drop_last() =~= vs.take(w - 1));
    assert(vs.take(w - 1).push(vs.last()) =~= vs);
    let full = t.observed_all(vs.take(w - 1), perm).absorbed(vs.last());
    assert(full.input =~= vs);
    assert(full.loaded().state =~= vs);
    let a = t.observed_all(vs, perm);
    assert(a == full.duplexed(perm));
    assert(a.input =~= Seq::<W>::empty());
    assert(perm(vs).len() == w);
    lemma_drain(a, perm, w);
    lemma_drain_then_refill(a, perm);
}

/// Sampling a fresh transcript (both buffers empty) runs one permutation
/// and then releases `width` outputs before the second permutation runs.
pub proof fn lemma_fresh_sampling<W>(t: Transcript<W>, perm: spec_fn(Seq<W>) -> Seq<W>)
    requires
        t.wf(),
        t.input.len() == 0,
        t.output.len() == 0,
        keeps_width(perm, t.width()),
    ensures
        t.sampled_n(perm, t.width()).2 == 1,
        t.sampled_n(perm, t.width() + 1).2 == 2,
{
    let w = t.width();
    let d = t.duplexed(perm);
    assert(t.loaded().state.len() == w);
    assert(d.output.len() == w);
    assert(d.input =~= Seq::<W>::empty());
    let p = d.popped();
    lemma_drain(p, perm, (w - 1) as nat);
    lemma_drain_then_refill(p, perm);
}

/// Observing a value invalidates the pending outputs: the observe and the
/// sample after it run exactly one permutation between them, whatever was
/// left in the output buffer.
pub proof fn lemma_observe_invalidates<W>(t: Transcript<W>, v: W, perm: spec_fn(Seq<W>) -> Seq<W>)
    requires
        t.wf(),
        !t.inputs_full(),
        keeps_width(perm, t.width()),
    ensures
        t.absorbed(v).output.len() == 0,
        t.observe_permutations(v) + t.observed(v, perm).sampled_n(perm, 1).2 == 1,
{
    let a = t.absorbed(v);
    let o = t.observed(v, perm);
    if a.inputs_full() {
        assert(a.loaded().state.len() == t.width());
        assert(a.duplexed(perm).output.len() == t.width());
        assert(!o.needs_duplex());
    } else {
        assert(o.needs_duplex());
    }
    assert(o.sampled(perm).0.sampled_n(perm, 0).2 == 0);
}

} // verus!
