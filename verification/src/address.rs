//! The one-way function behind every derived address.
//!
//! An address is computed from a program identity, an ordered list of seed
//! components and a one-byte disambiguation value, the bump. The computation
//! itself is the ledger runtime's own; this module gives its result a name and
//! builds candidates from it.

use vstd::prelude::*;
use vstd::slice::slice_to_vec;
use crate::identity::Identity;

verus! {

/// What `Pubkey::create_program_address` yields for the given seeds and
/// program identity: the derived address, or `None` where the seeds are
/// rejected or derive no valid address.
pub uninterp spec fn program_address(seeds: Seq<Seq<u8>>, program_id: Seq<u8>) -> Option<Seq<u8>>;

/// The bytes of an optional identity.
pub open spec fn identity_view(id: Option<Identity>) -> Option<Seq<u8>> {
    match id {
        Some(i) => Some(i@),
        None => None,
    }
}

/// The byte sequences held by a list of seeds, in order.
pub open spec fn seed_bytes(seeds: &Vec<Vec<u8>>) -> Seq<Seq<u8>> {
    Seq::new(seeds@.len(), |i: int| seeds@[i]@)
}

/// The address that the seed components `material`, followed by the single
/// byte `bump`, derive under `program_id`.
pub open spec fn candidate_address(program_id: Seq<u8>, material: Seq<Seq<u8>>, bump: u8) -> Option<
    Seq<u8>,
> {
    program_address(material.push(seq![bump]), program_id)
}

/// Calls `anchor_lang::prelude::Pubkey::create_program_address` on the seeds and
/// the program identity. Trusted: the call is a function of its arguments
/// alone (a hash of the seeds, the program identity and a fixed marker, kept
/// only when it is not a point of the signature curve), so its result is the
/// one that `program_address` names; an error of the call is handed on as
/// `None`.
#[verifier::external_body]
fn create_program_address(seeds: &Vec<Vec<u8>>, program_id: &Identity) -> (address: Option<
    Identity,
>)
    ensures
        identity_view(address) == program_address(seed_bytes(seeds), program_id@),
{
    let mut parts: Vec<&[u8]> = Vec::new();
    for seed in seeds {
        parts.push(seed.as_slice());
    }
    let program = anchor_lang::prelude::Pubkey::new_from_array(program_id.bytes);
    match anchor_lang::prelude::Pubkey::create_program_address(&parts, &program) {
        Ok(key) => Some(Identity { bytes: key.to_bytes() }),
        Err(_) => None,
    }
}

/// Derives the candidate address for one bump: the seeds are the components of
/// `material`, in order, followed by the bump as a seed of one byte.
pub fn candidate(program_id: &Identity, material: &Vec<Vec<u8>>, bump: u8) -> (address: Option<
    Identity,
>)
    ensures
        identity_view(address) == candidate_address(program_id@, seed_bytes(material), bump),
{
    let mut seeds: Vec<Vec<u8>> = Vec::new();
    let mut i: usize = 0;
    while i < material.len()
        invariant
            i <= material.len(),
            seeds@.len() == i,
            forall|j: int| 0 <= j < i ==> seeds@[j]@ == material@[j]@,
        decreases material.len() - i,
    {
        seeds.push(slice_to_vec(material[i].as_slice()));
        i += 1;
    }
    let mut last: Vec<u8> = Vec::new();
    last.push(bump);
    seeds.push(last);
    assert(seed_bytes(&seeds) =~~= seed_bytes(material).push(seq![bump]));
    create_program_address(&seeds, program_id)
}

} // verus!
