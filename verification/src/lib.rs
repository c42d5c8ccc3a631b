//! An append-only buffer backed either by a memory-mapped file or by a heap
//! region. A mutable buffer hands out disjoint byte ranges through a bump
//! cursor; freezing it yields an immutable, freely shareable view of exactly
//! the bytes written so far.

pub mod bump;
pub mod disk;
pub mod error;
pub mod memory;
