use crate::address::Address;
use crate::errors::VaultError;
use vstd::prelude::*;

verus! {

/// What the counterparty of a delegated call reported back.
#[derive(Clone, Copy, Debug, PartialEq, Eq, Structural)]
pub enum InvocationStatus {
    Succeeded,
    Failed,
}

/// Routes delegated calls to a trusted counterparty whose identity is bound
/// once, at configuration time, and is never taken from the principal that
/// initiates a transaction.
pub struct InvocationGateway {
    pinned_target: Address,
}

impl InvocationGateway {
    /// The identity of the pinned counterparty.
    pub closed spec fn pinned(&self) -> Seq<u8> {
        self.pinned_target@
    }

    /// Configures the gateway. This is the only place the target is bound.
    pub fn new(pinned_target: Address) -> (r: InvocationGateway)
        ensures
            r.pinned() == pinned_target@,
    {
        InvocationGateway { pinned_target }
    }

    /// The pinned counterparty's identity, borrowed.
    pub fn pinned_target(&self) -> (r: &Address)
        ensures
            r@ == self.pinned(),
    {
        &self.pinned_target
    }

    /// How a delegated call's report is judged: a response counts only when
    /// it comes from the pinned counterparty, and success reported by any
    /// other target is refused outright.
    pub open spec fn invoke_outcome(
        &self,
        target: Seq<u8>,
        status: InvocationStatus,
    ) -> Result<(), VaultError> {
        if target != self.pinned() {
            Err(VaultError::UnpinnedInvocationTarget)
        } else if status is Failed {
            Err(VaultError::InvocationFailed)
        } else {
            Ok(())
        }
    }

    /// Judges a delegated call against the pinned target. "No error" from an
    /// unpinned counterparty means nothing: it surfaces as
    /// `UnpinnedInvocationTarget`, never as success.
    pub fn evaluate(&self, target: &Address, status: InvocationStatus) -> (r: Result<
        (),
        VaultError,
    >)
        ensures
            r == self.invoke_outcome(target@, status),
    {
        if !self.pinned_target.equals(target) {
            Err(VaultError::UnpinnedInvocationTarget)
        } else {
            match status {
                InvocationStatus::Failed => Err(VaultError::InvocationFailed),
                InvocationStatus::Succeeded => Ok(()),
            }
        }
    }
}

} // verus!
