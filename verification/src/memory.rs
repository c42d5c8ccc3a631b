//! The memory-backed buffers: a mutable append-only buffer over a
//! zero-initialized heap region, and the immutable, shareable view a frozen
//! one becomes. They exist only for the lifetime of the process; flushing is
//! a no-op since there is nothing to persist.

pub mod buffer;

mod immutable;
mod mutable;

pub use immutable::Mmap;
pub use mutable::MmapMut;
