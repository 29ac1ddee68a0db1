//! A bounded registry of lock-protected memory blocks.
//!
//! [`SafeBlock`] owns one payload behind an exclusive lock and records when it
//! was made, how often it was accessed and an opaque tag. [`MemoryPool`] holds
//! blocks under string keys and never holds more than its capacity.
mod block;
mod clock;
mod laws;
mod pool;
mod tag;

pub use block::{BlockView, SafeBlock};
pub use laws::{
    distinct, filled, lemma_access_counts, lemma_deallocation_makes_room, lemma_fill_to_capacity,
    lemma_fresh_block_accesses, lemma_reallocation_replaces,
};
pub use pool::{admits, MemoryPool, CAPACITY_EXCEEDED, CLOCK_BEFORE_EPOCH};
pub use tag::{block_tag, decimal, digit_char};
