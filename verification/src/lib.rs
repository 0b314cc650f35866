//! Regroup a sequential source of items into fixed-size chunks.
//!
//! A [`Chunks`] adapter owns a single-pass source and produces owned groups
//! of exactly `N` items at a time, in source order.  When the source runs
//! out before a group is complete, the trailing partial group stays buffered
//! and can be inspected with [`Chunks::currently_stored`] or drained with
//! [`Chunks::into_stored`].

mod chunks;
mod laws;

pub use chunks::ChunkIter;
pub use chunks::Chunks;
pub use laws::full_chunks;
pub use laws::leftover;
pub use laws::lemma_chunk_order;
pub use laws::lemma_end_idempotent;
pub use laws::lemma_partition;
pub use laws::lemma_production_end;
pub use laws::lemma_production_step;
pub use laws::lemma_single_item_chunks;
