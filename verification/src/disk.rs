//! The disk-backed buffers: a mutable append-only buffer over a writable file
//! mapping, and the immutable, shareable view a frozen one becomes.

pub mod mapping;

mod immutable;
mod mutable;

pub use immutable::Mmap;
pub use mutable::MmapMut;
