//! On-chain movie-rating record creation: a tagged-instruction decoder, a
//! persisted record model with a byte-exact codec, and a processor that
//! derives the record's storage address, enforces authorization and funding
//! invariants, and initializes the record exactly once.
pub mod codec;
pub mod error;
pub mod instruction;
pub mod processor;
pub mod state;
