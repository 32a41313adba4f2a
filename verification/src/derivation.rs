//! Which address an entry gets. Candidates are derived bump by bump, upward
//! from zero; the first that is not another owner's is the slot.

use vstd::prelude::*;
use crate::address::candidate_address;
use crate::identity::Identity;
use crate::model::{DeepchainError, ModelAccountView};

verus! {

/// Whether a candidate address may be given to `holder`: there is a candidate,
/// and it does not name a live entry of another owner. With no holder, the
/// candidate must name no live entry at all.
pub open spec fn admits(
    entries: Map<Seq<u8>, ModelAccountView>,
    holder: Option<Seq<u8>>,
    candidate: Option<Seq<u8>>,
) -> bool {
    match candidate {
        Some(address) => !entries.dom().contains(address) || Some(entries[address].owner) == holder,
        None => false,
    }
}

/// The first bump from `from` upward whose candidate is admitted, with that
/// candidate; `None` where no bump up to 255 has one.
pub open spec fn first_admitted(
    entries: Map<Seq<u8>, ModelAccountView>,
    program_id: Seq<u8>,
    material: Seq<Seq<u8>>,
    holder: Option<Seq<u8>>,
    from: int,
) -> Option<(Seq<u8>, u8)>
    decreases 256 - from,
{
    if from < 0 || from > 255 {
        None
    } else {
        let found = candidate_address(program_id, material, from as u8);
        if admits(entries, holder, found) {
            Some((found.unwrap(), from as u8))
        } else {
            first_admitted(entries, program_id, material, holder, from + 1)
        }
    }
}

/// The tag under which the slots of model entries are derived: `model`.
pub const MODEL_NAMESPACE: [u8; 5] = [109, 111, 100, 101, 108];

/// The tag under which the verification authority is derived:
/// `verification_auth`.
pub const AUTHORITY_NAMESPACE: [u8; 17] = [
    118, 101, 114, 105, 102, 105, 99, 97, 116, 105, 111, 110, 95, 97, 117, 116, 104,
];

/// The slot of the entry of `owner` with digest `model_hash`: the first
/// admitted candidate derived from the namespace, the owner and the digest,
/// with its bump, or a collision where no bump has one.
pub open spec fn derived_slot(
    entries: Map<Seq<u8>, ModelAccountView>,
    program_id: Seq<u8>,
    namespace: Seq<u8>,
    owner: Seq<u8>,
    model_hash: Seq<u8>,
) -> Result<(Seq<u8>, u8), DeepchainError> {
    match first_admitted(entries, program_id, seq![namespace, owner, model_hash], Some(owner), 0) {
        Some(found) => Ok(found),
        None => Err(DeepchainError::IdentifierCollision),
    }
}

/// The verification authority of a program: the first address that the
/// authority's namespace alone derives, with no owner among the seeds.
pub open spec fn authority_of(program_id: Seq<u8>) -> Option<Seq<u8>> {
    match first_admitted(Map::empty(), program_id, seq![AUTHORITY_NAMESPACE@], None, 0) {
        Some(found) => Some(found.0),
        None => None,
    }
}

/// A derivation as a mathematical value.
pub open spec fn derivation_view(slot: Result<(Identity, u8), DeepchainError>) -> Result<
    (Seq<u8>, u8),
    DeepchainError,
> {
    match slot {
        Ok(found) => Ok((found.0@, found.1)),
        Err(e) => Err(e),
    }
}

} // verus!
