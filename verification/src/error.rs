//! The flat error taxonomy. Every failure of an operation is one of these
//! terminal, non-retryable outcomes, detected before any slot is mutated.

use vstd::prelude::*;

verus! {

/// Why an operation was refused.
#[derive(Clone, Copy, Debug, PartialEq, Eq, Structural)]
pub enum ProductError {
    /// The initiating identity did not sign the invocation.
    MissingSignature,
    /// A caller-supplied slot is not at the address derived for it.
    AddressMismatch,
    /// An empty name, an oversized name, or non-positive price bits.
    InvalidInput,
    /// The slot to allocate is already in use, or the record read from it is
    /// already initialized.
    AlreadyInitialized,
    /// The product record read from the supplied slot is not initialized.
    UninitializedAccount,
    /// The product slot is not owned by this program.
    IllegalOwner,
    /// The command bytes name no known command or carry a malformed payload.
    InvalidCommand,
    /// The funding source cannot cover the host's rent minimum for a new slot.
    InsufficientFunds,
    /// Fewer storage-slot handles were supplied than the command consumes.
    NotEnoughSlots,
}

} // verus!
