//! The chunking discipline as mathematics: how a source sequence splits
//! into full chunks and a leftover, and the laws that split obeys.

use vstd::prelude::*;

use crate::chunks::Chunks;

verus! {

/// The sequence of complete chunks that a source sequence `s` yields at
/// chunk size `n`: successive groups of exactly `n` items, in order, up to
/// the last complete group.
pub open spec fn full_chunks<T>(s: Seq<T>, n: nat) -> Seq<Seq<T>>
    decreases s.len(),
{
    if n == 0 || s.len() < n {
        Seq::empty()
    } else {
        seq![s.take(n as int)] + full_chunks(s.skip(n as int), n)
    }
}

/// The trailing partial group that production at chunk size `n` never
/// hands out: what is left of `s` after every complete chunk is removed.
pub open spec fn leftover<T>(s: Seq<T>, n: nat) -> Seq<T>
    decreases s.len(),
{
    if n == 0 || s.len() < n {
        s
    } else {
        leftover(s.skip(n as int), n)
    }
}

/// Completeness of the partition: the produced full chunks, concatenated in
/// order and followed by the leftover, give back the source sequence
/// exactly; there are `|s| / n` full chunks and the leftover holds
/// `|s| % n` items.
pub proof fn lemma_partition<T>(s: Seq<T>, n: nat)
    requires
        n > 0,
    ensures
        full_chunks(s, n).flatten() + leftover(s, n) == s,
        full_chunks(s, n).len() == s.len() / n,
        leftover(s, n).len() == s.len() % n,
    decreases s.len(),
{
    if s.len() < n {
        assert(full_chunks(s, n).flatten() =~= Seq::<T>::empty());
        assert(full_chunks(s, n).flatten() + leftover(s, n) =~= s);
        assert(s.len() / n == 0 && s.len() % n == s.len()) by (nonlinear_arith)
            requires
                n > 0,
                s.len() < n,
        ;
    } else {
        let rest = s.skip(n as int);
        lemma_partition(rest, n);
        let cs = full_chunks(s, n);
        assert(cs == seq![s.take(n as int)] + full_chunks(rest, n));
        assert(cs.drop_first() =~= full_chunks(rest, n));
        assert(cs.flatten() == s.take(n as int) + full_chunks(rest, n).flatten());
        assert(leftover(s, n) == leftover(rest, n));
        assert(cs.flatten() + leftover(s, n) =~= s.take(n as int)
            + (full_chunks(rest, n).flatten() + leftover(rest, n)));
        assert(s.take(n as int) + rest =~= s);
        assert(s.len() / n == rest.len() / n + 1 && s.len() % n == rest.len() % n)
            by (nonlinear_arith)
            requires
                n > 0,
                s.len() >= n,
                rest.len() == s.len() - n,
        ;
    }
}

/// One production step against the model: when at least `n` items remain
/// in total, the chunk a production call hands out — the first `n` items —
/// is the first full chunk, and the items left behind yield exactly the
/// remaining full chunks and the same leftover.  Repeated production
/// therefore enumerates `full_chunks` in order.
pub proof fn lemma_production_step<T>(s: Seq<T>, n: nat)
    requires
        n > 0,
        s.len() >= n,
    ensures
        full_chunks(s, n) == seq![s.take(n as int)] + full_chunks(s.skip(n as int), n),
        leftover(s, n) == leftover(s.skip(n as int), n),
{
}

/// The end of production against the model: when fewer than `n` items
/// remain in total, no full chunk is left and everything that remains is
/// the leftover — exactly what a production call that reports end of
/// production leaves staged.
pub proof fn lemma_production_end<T>(s: Seq<T>, n: nat)
    requires
        n > 0,
        s.len() < n,
    ensures
        full_chunks(s, n) == Seq::<Seq<T>>::empty(),
        leftover(s, n) == s,
{
}

/// Order preservation: chunk `i` is exactly the source items at positions
/// `i * n` up to but excluding `i * n + n`, in source order.
pub proof fn lemma_chunk_order<T>(s: Seq<T>, n: nat, i: int)
    requires
        n > 0,
        0 <= i < full_chunks(s, n).len(),
    ensures
        i * n + n <= s.len(),
        full_chunks(s, n)[i] == s.subrange(i * n, i * n + n),
    decreases s.len(),
{
    if i == 0 {
        assert(full_chunks(s, n)[0] =~= s.subrange(0, n as int));
    } else {
        let rest = s.skip(n as int);
        lemma_chunk_order(rest, n, i - 1);
        let a = (i - 1) * n;
        assert((i - 1) * n + n == i * n) by (nonlinear_arith);
        assert(rest.subrange(a, a + n) =~= s.subrange(i * n, i * n + n));
    }
}

/// Idempotent end of production: a production call that reports end of
/// production leaves every item the adapter will ever hold staged, still
/// fewer than `N` of them, with the source exhausted — so the end condition
/// holds again at every later call.
pub proof fn lemma_end_idempotent<T, const N: usize>(pre: Chunks<T, N>, post: Chunks<T, N>)
    requires
        pre.buffered().len() + pre.remaining().len() < N,
        post.buffered() == pre.buffered() + pre.remaining(),
        post.remaining() == Seq::<T>::empty(),
    ensures
        post.buffered().len() + post.remaining().len() < N,
{
}

/// Degenerate chunk size one: every source item becomes its own
/// single-item chunk and the leftover is always empty.
pub proof fn lemma_single_item_chunks<T>(s: Seq<T>)
    ensures
        full_chunks(s, 1).len() == s.len(),
        leftover(s, 1) == Seq::<T>::empty(),
        forall|i: int| 0 <= i < s.len() ==> full_chunks(s, 1)[i] == seq![s[i]],
{
    lemma_partition(s, 1);
    assert(leftover(s, 1) =~= Seq::<T>::empty());
    assert forall|i: int| 0 <= i < s.len() implies full_chunks(s, 1)[i] == seq![s[i]] by {
        lemma_chunk_order(s, 1, i);
        assert(s.subrange(i, i + 1) =~= seq![s[i]]);
    }
}

} // verus!
