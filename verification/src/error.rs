//! The failure taxonomy of the record-creation handler. Every check aborts
//! the whole operation with the first failing variant; nothing is recovered
//! internally.
use vstd::prelude::*;

verus! {

/// Why a call failed. Decode failures (`Empty`, `Malformed`,
/// `UnknownVariant`) are caller input problems; the rest are account-list or
/// funding problems found while processing.
#[derive(Clone, Copy, Debug, PartialEq, Eq, Structural)]
pub enum IntroError {
    /// The instruction buffer held no bytes at all, so no variant tag could
    /// be read.
    Empty,
    /// A byte region that should parse did not: a request payload that was
    /// truncated, carried a bad length prefix, held trailing bytes or
    /// non-UTF-8 text — or a storage slot whose bytes do not read back as a
    /// record.
    Malformed,
    /// The variant tag is not one this handler recognizes.
    UnknownVariant,
    /// The caller did not sign the call.
    Unauthorized,
    /// The account list is malformed: the declared allocator is not the
    /// system allocator, or the writable account is not the derived address.
    InvalidArgument,
    /// The allocated slot does not hold the minimum balance required for
    /// fee-free persistence at its size.
    NotRentExempt,
    /// The slot already holds an initialized record; records are written
    /// exactly once.
    AlreadyInitialized,
}

} // verus!
