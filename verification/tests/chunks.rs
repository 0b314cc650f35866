use chunk_iter::ChunkIter;
use chunk_iter::Chunks;

use std::cell::Cell;
use std::rc::Rc;

/// A value that counts itself when dropped, so a test can observe that every
/// constructed value is destroyed exactly once.
struct Counted {
    counter: Rc<Cell<usize>>,
}

impl Drop for Counted {
    fn drop(&mut self) {
        self.counter.set(self.counter.get() + 1);
    }
}

fn counted_items(n: usize) -> (Rc<Cell<usize>>, Vec<Counted>) {
    let counter = Rc::new(Cell::new(0usize));
    let items = (0..n).map(|_| Counted { counter: Rc::clone(&counter) }).collect();
    (counter, items)
}

#[test]
fn basic_test() {
    let iter = vec![0, 1, 2, 3, 4, 5, 6, 7];
    let mut chunks = iter.chunks::<3>();
    assert_eq!(chunks.next(), Some(vec![0, 1, 2]));
    assert_eq!(chunks.next(), Some(vec![3, 4, 5]));
    assert_eq!(chunks.next(), None);
}

#[test]
fn drop_test() {
    let (counter, items) = counted_items(10);
    let chunks = items.chunks::<3>();

    drop(chunks);

    assert_eq!(10, counter.get());
}

#[test]
fn size_hint_test() {
    let iter = vec![0, 1, 2, 3, 4, 5, 6, 7].chunks::<3>();

    assert_eq!(iter.size_hint(), (2, Some(2)))
}

#[test]
fn currently_stored_test() {
    let mut iter = vec![0, 1, 2, 3, 4].chunks::<3>();
    iter.next();
    assert!(iter.next().is_none());
    assert!(iter.next().is_none());
    assert_eq!(iter.currently_stored(), &[3, 4]);
    assert_eq!(iter.into_stored(), vec![Some(3), Some(4), None]);
}

#[test]
fn scenario_seven_items() {
    let mut chunks = vec![0, 1, 2, 3, 4, 5, 6].chunks::<3>();
    assert_eq!(chunks.next(), Some(vec![0, 1, 2]));
    assert_eq!(chunks.next(), Some(vec![3, 4, 5]));
    assert_eq!(chunks.next(), None);
    assert_eq!(chunks.currently_stored(), &[6]);
    assert_eq!(chunks.into_stored(), vec![Some(6), None, None]);
}

#[test]
fn drop_accounting_after_partial_fill() {
    let (counter, items) = counted_items(8);
    let mut chunks = items.chunks::<3>();

    let first = chunks.next();
    assert!(first.is_some());
    let second = chunks.next();
    assert!(second.is_some());
    let third = chunks.next();
    assert!(third.is_none());

    drop(first);
    drop(second);
    assert_eq!(6, counter.get());

    drop(chunks);
    assert_eq!(8, counter.get());
}

#[test]
fn partition_reassembles_source() {
    let source: Vec<u32> = (0..10).collect();
    let mut chunks = source.clone().chunks::<4>();

    let mut reassembled: Vec<u32> = Vec::new();
    let mut full_count = 0usize;
    while let Some(chunk) = chunks.next() {
        assert_eq!(chunk.len(), 4);
        reassembled.extend(chunk);
        full_count += 1;
    }
    let leftover: Vec<u32> = chunks.currently_stored().to_vec();
    reassembled.extend(leftover.iter().copied());

    assert_eq!(full_count, source.len() / 4);
    assert_eq!(leftover.len(), source.len() % 4);
    assert_eq!(reassembled, source);
}

#[test]
fn bound_accuracy() {
    let mut chunks = vec![0, 1, 2, 3, 4, 5, 6].chunks::<3>();
    assert_eq!(chunks.len(), 7 / 3);
    assert_eq!(chunks.size_hint(), (2, Some(2)));
    chunks.next();
    assert_eq!(chunks.len(), 4 / 3);
    chunks.next();
    assert_eq!(chunks.len(), 0);
    assert_eq!(chunks.size_hint(), (0, Some(0)));
}

#[test]
fn end_of_production_is_idempotent() {
    let mut chunks = vec![1, 2, 3, 4].chunks::<3>();
    assert!(chunks.next().is_some());
    assert!(chunks.next().is_none());
    assert!(chunks.next().is_none());
    assert!(chunks.next().is_none());
    assert_eq!(chunks.currently_stored(), &[4]);
}

#[test]
fn single_item_chunks() {
    let mut chunks = vec![5, 6, 7].chunks::<1>();
    assert_eq!(chunks.next(), Some(vec![5]));
    assert_eq!(chunks.next(), Some(vec![6]));
    assert_eq!(chunks.next(), Some(vec![7]));
    assert_eq!(chunks.next(), None);
    assert_eq!(chunks.currently_stored(), &[] as &[i32]);
    assert_eq!(chunks.into_stored(), vec![None]);
}

#[test]
fn empty_source() {
    let source: Vec<i32> = Vec::new();
    let mut chunks = source.chunks::<3>();
    assert_eq!(chunks.size_hint(), (0, Some(0)));
    assert_eq!(chunks.next(), None);
    assert_eq!(chunks.currently_stored(), &[] as &[i32]);
    assert_eq!(chunks.into_stored(), vec![None, None, None]);
}

#[test]
fn zero_chunk_size_consumes_nothing() {
    let mut chunks = vec![1, 2].chunks::<0>();
    assert_eq!(chunks.next(), Some(Vec::new()));
    assert_eq!(chunks.next(), Some(Vec::new()));
    assert_eq!(chunks.currently_stored(), &[] as &[i32]);
    assert_eq!(chunks.into_stored(), Vec::<Option<i32>>::new());
}

#[test]
fn take_leftover_without_production() {
    let chunks: Chunks<i32, 4> = vec![8, 9].chunks::<4>();
    assert_eq!(chunks.into_stored(), vec![None, None, None, None]);
}
