//! The closed set of failure kinds surfaced by the buffer operations.

use vstd::prelude::*;

verus! {

#[verifier::external_type_specification]
#[verifier::external_body]
pub struct ExIoError(std::io::Error);

/// Everything that can go wrong while mapping, writing or flushing a buffer.
/// Capacity exhaustion is reported as `EOF`; the OS-level kinds carry the
/// underlying I/O error.
#[derive(Debug)]
pub enum Error {
    /// Pinning the mapped pages in memory failed.
    LockMemory(std::io::Error),
    /// Unpinning the mapped pages failed.
    UnlockMemory(std::io::Error),
    /// A zero-length mapping was requested.
    MmapZero,
    /// Mapping a region failed.
    Mmap(std::io::Error),
    /// Unmapping a region failed.
    Unmmap(std::io::Error),
    /// Mapping an anonymous region failed.
    MmapAnonymous(std::io::Error),
    /// Advising the OS about the mapping failed.
    Advice(std::io::Error),
    /// Locking the backing file failed.
    Flock(std::io::Error),
    /// Unlocking the backing file failed.
    Funlock(std::io::Error),
    /// Flushing dirty pages to the backing file failed.
    Flush(std::io::Error),
    /// Changing the protection of the mapping failed.
    Mprotect(std::io::Error),
    /// The requested buffer is too large.
    BufTooLarge,
    /// Any other underlying I/O failure.
    IO(std::io::Error),
    /// A reservation landed past the end of the buffer; the buffer is
    /// exhausted from this point on.
    EOF,
}

impl From<std::io::Error> for Error {
    fn from(e: std::io::Error) -> Self {
        Error::IO(e)
    }
}

impl vstd::std_specs::convert::FromSpecImpl<std::io::Error> for Error {
    open spec fn obeys_from_spec() -> bool {
        true
    }

    open spec fn from_spec(e: std::io::Error) -> Self {
        Error::IO(e)
    }
}

} // verus!
