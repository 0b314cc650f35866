//! The chunk-producing adapter and the trait that attaches it to a source.

use vstd::prelude::*;

verus! {

/// Adapter that regroups a sequential source into owned groups of exactly
/// `N` items.
///
/// The adapter owns its source outright and consumes it one item at a time.
/// Items pulled from the source but not yet handed out as a complete chunk
/// wait in an internal staging buffer; they are the "leftover" once the
/// source is exhausted.
pub struct Chunks<T, const N: usize> {
    buffer: Vec<T>,
    source: Vec<T>,
}

/// Attaches the [`Chunks`] adapter to an exclusively owned, single-pass
/// source of items.
pub trait ChunkIter<T>: Sized {
    /// The items the source will yield, in order.
    spec fn items(self) -> Seq<T>;

    /// Wrap the source in a [`Chunks`] adapter with chunk size `N`.
    fn chunks<const N: usize>(self) -> (c: Chunks<T, N>)
        ensures
            c.wf(),
            c.buffered() == Seq::<T>::empty(),
            c.remaining() == self.items(),
    ;
}

impl<T> ChunkIter<T> for Vec<T> {
    open spec fn items(self) -> Seq<T> {
        self@
    }

    fn chunks<const N: usize>(self) -> (c: Chunks<T, N>) {
        Chunks { buffer: Vec::new(), source: self }
    }
}

impl<T, const N: usize> Chunks<T, N> {
    /// The items currently staged in the buffer, in source order.
    pub closed spec fn buffered(self) -> Seq<T> {
        self.buffer@
    }

    /// The items the source has not yielded yet, in order.
    pub closed spec fn remaining(self) -> Seq<T> {
        self.source@
    }

    /// The staging buffer never holds a complete chunk: a full buffer is
    /// handed out and reset within the same production call.
    pub open spec fn wf(self) -> bool {
        if N == 0 {
            self.buffered().len() == 0
        } else {
            self.buffered().len() < N
        }
    }

    /// Produce the next chunk: pull items from the source into the first
    /// empty buffer slots until all `N` are filled, then hand the group out
    /// and reset the buffer.  If the source runs out first, report
    /// end of production and keep the partial group staged.
    pub fn next(&mut self) -> (r: Option<Vec<T>>)
        requires
            old(self).wf(),
        ensures
            final(self).wf(),
            old(self).buffered().len() + old(self).remaining().len() >= N ==> {
                &&& r matches Some(c) && c@ == (old(self).buffered()
                    + old(self).remaining()).take(N as int)
                &&& final(self).buffered() == Seq::<T>::empty()
                &&& final(self).remaining() == (old(self).buffered()
                    + old(self).remaining()).skip(N as int)
            },
            old(self).buffered().len() + old(self).remaining().len() < N ==> {
                &&& r is None
                &&& final(self).buffered() == old(self).buffered() + old(self).remaining()
                &&& final(self).remaining() == Seq::<T>::empty()
            },
    {
        while self.buffer.len() < N
            invariant
                self.buffer@.len() <= N,
                self.buffer@ + self.source@ == old(self).buffered() + old(self).remaining(),
            decreases N - self.buffer@.len(),
        {
            if self.source.len() == 0 {
                proof {
                    assert(self.buffer@ =~= self.buffer@ + self.source@);
                }
                return None;
            }
            let item = self.source.remove(0);
            proof {
                assert(self.buffer@.push(item) + self.source@
                    =~= old(self).buffered() + old(self).remaining());
            }
            self.buffer.push(item);
        }
        proof {
            let all = old(self).buffered() + old(self).remaining();
            assert(self.buffer@ =~= all.take(N as int));
            assert(self.source@ =~= all.skip(N as int));
        }
        let mut chunk: Vec<T> = Vec::new();
        core::mem::swap(&mut chunk, &mut self.buffer);
        Some(chunk)
    }

    /// Bounds on how many more complete chunks production can yield: the
    /// source's remaining count divided by `N`, rounding down, so the
    /// trailing partial group never counts as a chunk.
    pub fn size_hint(&self) -> (r: (usize, Option<usize>))
        requires
            N >= 1,
        ensures
            r.0 == self.remaining().len() as int / N as int,
            r.1 == Some(r.0),
    {
        let bound = self.source.len() / N;
        (bound, Some(bound))
    }

    /// The exact number of complete chunks still to come, the source's
    /// remaining count divided by `N` rounding down.
    pub fn len(&self) -> (r: usize)
        requires
            N >= 1,
        ensures
            r == self.remaining().len() as int / N as int,
    {
        self.source.len() / N
    }

    /// Read-only view of the staged items, in source order.  Usually empty:
    /// it holds the trailing partial group after the source has run out.
    pub fn currently_stored(&self) -> (r: &[T])
        ensures
            r@ == self.buffered(),
    {
        self.buffer.as_slice()
    }

    /// Drain the adapter: move each staged item out, in order, and release
    /// the source.  The result has exactly `N` entries, the staged items
    /// first and absent markers for every never-filled slot after them.
    pub fn into_stored(self) -> (r: Vec<Option<T>>)
        requires
            self.wf(),
        ensures
            r@.len() == N,
            forall|i: int| 0 <= i < self.buffered().len() ==> r@[i] == Some(self.buffered()[i]),
            forall|i: int| self.buffered().len() <= i < N ==> r@[i] is None,
    {
        let Chunks { mut buffer, source: _ } = self;
        let ghost staged = buffer@;
        let mut r: Vec<Option<T>> = Vec::new();
        proof {
            assert(staged.skip(0) =~= staged);
        }
        while buffer.len() > 0
            invariant
                r@.len() + buffer@.len() == staged.len(),
                buffer@ == staged.skip(r@.len() as int),
                forall|i: int| 0 <= i < r@.len() ==> r@[i] == Some(staged[i]),
            decreases buffer@.len(),
        {
            let ghost k = r@.len() as int;
            let item = buffer.remove(0);
            proof {
                assert(buffer@ =~= staged.skip(k + 1));
            }
            r.push(Some(item));
        }
        while r.len() < N
            invariant
                staged.len() <= r@.len() <= N,
                forall|i: int| 0 <= i < staged.len() ==> r@[i] == Some(staged[i]),
                forall|i: int| staged.len() <= i < r@.len() ==> r@[i] is None,
            decreases N - r@.len(),
        {
            r.push(None);
        }
        r
    }
}

} // verus!
