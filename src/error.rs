use vstd::prelude::*;

verus! {

/// Why a decode failed.
#[derive(Debug, Clone, Copy, PartialEq, Eq, Structural)]
pub enum DecodeError {
    /// A read, a peek or a skip would reach at or beyond the buffer's end.
    OutOfBounds,
    /// Decompressing a domain name followed more pointers than allowed.
    CompressionLoopLimitExceeded,
}

} // verus!
