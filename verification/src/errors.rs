use vstd::prelude::*;

verus! {

/// The reasons an operation can be refused.
///
/// Every public operation either completes in full or returns exactly one of
/// these kinds with no surviving mutation.
#[derive(Clone, Copy, Debug, PartialEq, Eq, Structural)]
pub enum VaultError {
    /// The amount of an operation was zero.
    InvalidAmount,
    /// A supplied account address does not equal the address derived from its
    /// claimed seeds.
    AddressMismatch,
    /// A required principal did not produce a live authorization proof.
    MissingSignature,
    /// A claimed identity does not match the account's stored owner.
    Unauthorized,
    /// A checked comparison on an account balance failed before mutation.
    InsufficientFunds,
    /// A checked comparison on a credit counter failed before mutation.
    InsufficientCredits,
    /// A checked arithmetic step would wrap.
    MathOverflow,
    /// A delegated call's target identity is not the statically pinned one.
    UnpinnedInvocationTarget,
    /// The pinned counterparty itself reported failure.
    InvocationFailed,
    /// A record for the same account and owner already exists.
    AlreadyExists,
}

} // verus!
