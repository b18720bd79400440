use vstd::prelude::*;

verus! {

/// Error returned when a structure cannot be read back from its
/// big-endian byte representation.
#[derive(Debug, Clone, Copy, PartialEq, Eq, Structural)]
pub enum TryFromBEBytesError {
    /// The four magic bytes at the start of a model buffer are wrong.
    BadMagic,
    /// The buffer is too short for a declared count or offset.
    Truncated,
}

} // verus!
