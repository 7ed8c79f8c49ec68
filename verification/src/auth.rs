use crate::address::Address;
use crate::errors::VaultError;
use vstd::prelude::*;

verus! {

/// An ephemeral, per-call token asserting that an identity actively
/// authorized the current call. It is never persisted; `require_signer` is
/// the only constructor, and it hands one out only for an identity the
/// runtime attests as a live signer of the call.
pub struct AuthorizationProof {
    identity: Address,
}

impl AuthorizationProof {
    /// The attested identity.
    pub closed spec fn id(&self) -> Seq<u8> {
        self.identity@
    }

    /// The attested identity, borrowed.
    pub fn identity(&self) -> (r: &Address)
        ensures
            r@ == self.id(),
    {
        &self.identity
    }
}

/// Demands a live authorization proof for `identity`. `attested` is the
/// runtime's word that this identity signed the current call; an identity
/// that is merely named, without attestation, is refused.
pub fn require_signer(identity: &Address, attested: bool) -> (r: Result<
    AuthorizationProof,
    VaultError,
>)
    ensures
        match r {
            Ok(proof) => attested && proof.id() == identity@,
            Err(e) => !attested && e == VaultError::MissingSignature,
        },
{
    if attested {
        Ok(AuthorizationProof { identity: identity.clone() })
    } else {
        Err(VaultError::MissingSignature)
    }
}

/// Demands that a claimed identity equals the account's stored owner.
/// This check is independent of `require_signer`; privileged mutation
/// needs both.
pub fn require_owner_match(owner: &Address, claimed: &Address) -> (r: Result<(), VaultError>)
    ensures
        match r {
            Ok(_) => owner@ == claimed@,
            Err(e) => owner@ != claimed@ && e == VaultError::Unauthorized,
        },
{
    if owner.equals(claimed) {
        Ok(())
    } else {
        Err(VaultError::Unauthorized)
    }
}

} // verus!
