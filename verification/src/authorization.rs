//! Who may do what: a caller is matched against the identity that a request
//! needs.

use vstd::prelude::*;
use crate::model::DeepchainError;
use crate::identity::Identity;

verus! {

/// The party behind a request: its identity, and whether the request carries
/// proof that the party controls it.
#[derive(Clone, Copy, Debug, PartialEq, Eq)]
pub struct Caller {
    pub key: Identity,
    pub is_signer: bool,
}

/// Whether the caller proved control of the required identity.
pub open spec fn authorized(caller: Caller, required: Seq<u8>) -> bool {
    caller.is_signer && caller.key@ == required
}

/// Approves the caller as `required`: the caller must have signed and must be
/// that very identity.
pub fn authorize(caller: &Caller, required: &Identity) -> (verdict: Result<(), DeepchainError>)
    ensures
        authorized(*caller, required@) ==> verdict == Ok::<(), DeepchainError>(()),
        !authorized(*caller, required@) ==> verdict == Err::<(), DeepchainError>(
            DeepchainError::UnauthorizedAccess,
        ),
{
    if caller.is_signer && caller.key.same_as(required) {
        Ok(())
    } else {
        Err(DeepchainError::UnauthorizedAccess)
    }
}

/// The verdict on a caller who claims to be the verification authority. The
/// identity is judged first: a caller other than the authority, or any caller
/// where no authority exists, is an invalid authority. The authority itself is
/// refused while it has not signed.
pub open spec fn authority_verdict(caller: Caller, authority: Option<Seq<u8>>) -> Result<
    (),
    DeepchainError,
> {
    if authority != Some(caller.key@) {
        Err(DeepchainError::InvalidVerificationAuthority)
    } else if !caller.is_signer {
        Err(DeepchainError::UnauthorizedAccess)
    } else {
        Ok(())
    }
}

/// Approves the caller as the verification authority `authority`.
pub fn authorize_authority(caller: &Caller, authority: &Option<Identity>) -> (verdict: Result<
    (),
    DeepchainError,
>)
    ensures
        verdict == authority_verdict(*caller, crate::address::identity_view(*authority)),
{
    match authority {
        Some(expected) => {
            if !caller.key.same_as(expected) {
                Err(DeepchainError::InvalidVerificationAuthority)
            } else if !caller.is_signer {
                Err(DeepchainError::UnauthorizedAccess)
            } else {
                Ok(())
            }
        },
        None => Err(DeepchainError::InvalidVerificationAuthority),
    }
}

} // verus!
