//! What holds of the registry in every state, proved from the definitions
//! that the contracts of its operations use.

use vstd::prelude::*;
use crate::address::candidate_address;
use crate::deepchain_registry::{
    registration_outcome, verification_outcome, RegisterModel, VerifyModel,
};
use crate::derivation::{admits, derivation_view, derived_slot, first_admitted};
use crate::model::{
    entry_state, fresh_entry, uri_length, verified_entry, DeepchainError, EntryState,
    ModelAccountView, MAX_URI_LENGTH, MODEL_ACCOUNT_SPACE,
};
use crate::identity::{lemma_identity_by_bytes, Identity};

verus! {

/// The search for a slot finds the least admitted bump: the address it yields
/// is the candidate of its bump and is admitted, and no smaller bump from
/// `from` on has an admitted candidate. Where it yields nothing, no bump from
/// `from` to 255 has one.
pub proof fn lemma_first_admitted(
    entries: Map<Seq<u8>, ModelAccountView>,
    program_id: Seq<u8>,
    material: Seq<Seq<u8>>,
    holder: Option<Seq<u8>>,
    from: int,
)
    requires
        0 <= from <= 256,
    ensures
        match first_admitted(entries, program_id, material, holder, from) {
            Some(found) => {
                &&& from <= found.1
                &&& candidate_address(program_id, material, found.1) == Some(found.0)
                &&& admits(entries, holder, Some(found.0))
                &&& forall|b: int|
                    from <= b < found.1 ==> !admits(
                        entries,
                        holder,
                        #[trigger] candidate_address(program_id, material, b as u8),
                    )
            },
            None => forall|b: int|
                from <= b <= 255 ==> !admits(
                    entries,
                    holder,
                    #[trigger] candidate_address(program_id, material, b as u8),
                ),
        },
    decreases 256 - from,
{
    if from <= 255 {
        let found = candidate_address(program_id, material, from as u8);
        if !admits(entries, holder, found) {
            lemma_first_admitted(entries, program_id, material, holder, from + 1);
            match first_admitted(entries, program_id, material, holder, from + 1) {
                Some(later) => {
                    assert forall|b: int| from <= b < later.1 implies !admits(
                        entries,
                        holder,
                        #[trigger] candidate_address(program_id, material, b as u8),
                    ) by {
                        if b == from {
                        }
                    }
                },
                None => {
                    assert forall|b: int| from <= b <= 255 implies !admits(
                        entries,
                        holder,
                        #[trigger] candidate_address(program_id, material, b as u8),
                    ) by {
                        if b == from {
                        }
                    }
                },
            }
        }
    }
}

/// A derived slot never names a live entry of another owner.
pub proof fn lemma_derived_slot_is_not_anothers(
    entries: Map<Seq<u8>, ModelAccountView>,
    program_id: Seq<u8>,
    namespace: Seq<u8>,
    owner: Seq<u8>,
    model_hash: Seq<u8>,
)
    ensures
        match derived_slot(entries, program_id, namespace, owner, model_hash) {
            Ok(found) => entries.dom().contains(found.0) ==> entries[found.0].owner == owner,
            Err(e) => e == DeepchainError::IdentifierCollision,
        },
{
    lemma_first_admitted(entries, program_id, seq![namespace, owner, model_hash], Some(owner), 0);
}

/// Derivation is deterministic: two derivations from the same registry and
/// the same inputs yield the same identifier with the same bump, or both
/// collide.
pub proof fn lemma_derive_deterministic(
    entries: Map<Seq<u8>, ModelAccountView>,
    program_id: Seq<u8>,
    namespace: Seq<u8>,
    owner: Seq<u8>,
    model_hash: Seq<u8>,
    first: Result<(Identity, u8), DeepchainError>,
    second: Result<(Identity, u8), DeepchainError>,
)
    requires
        derivation_view(first) == derived_slot(entries, program_id, namespace, owner, model_hash),
        derivation_view(second) == derived_slot(entries, program_id, namespace, owner, model_hash),
    ensures
        first == second,
{
    match (first, second) {
        (Ok(a), Ok(b)) => {
            lemma_identity_by_bytes(a.0, b.0);
        },
        _ => {},
    }
}

/// A successful registration takes the free slot that the request names and
/// stores its inputs exactly: the new entry holds the payer as owner, the
/// digest, the URI and the time as given, is unverified, has a counter of
/// zero and is well formed; the slot is then registered, and every other slot
/// is as it was.
pub proof fn lemma_registration_round_trip(
    entries: Map<Seq<u8>, ModelAccountView>,
    ctx: RegisterModel,
    model_hash: Seq<u8>,
    model_uri: Seq<char>,
    now: i64,
    derived: Result<(Seq<u8>, u8), DeepchainError>,
)
    requires
        registration_outcome(entries, ctx, model_hash, model_uri, derived) is Ok,
    ensures
        ({
            let address = registration_outcome(entries, ctx, model_hash, model_uri, derived)->Ok_0;
            let after = entries.insert(
                address,
                fresh_entry(ctx.payer.key@, model_hash, model_uri, now),
            );
            &&& address == ctx.model_account@
            &&& entry_state(entries, address) == EntryState::Uninitialized
            &&& entry_state(after, address) == EntryState::Registered
            &&& after[address].owner == ctx.payer.key@
            &&& after[address].model_hash == model_hash
            &&& after[address].model_uri == model_uri
            &&& after[address].timestamp == now
            &&& !after[address].is_verified
            &&& after[address].verification_count == 0
            &&& after[address].well_formed()
            &&& forall|other: Seq<u8>|
                other != address ==> after.dom().contains(other) == entries.dom().contains(other)
                    && after[other] == entries[other]
        }),
{
}

/// An entry is created once: after a successful registration the same owner
/// and digest derive the same slot again, and a second registration of them
/// collides, whatever valid URI it brings.
pub proof fn lemma_registered_once(
    entries: Map<Seq<u8>, ModelAccountView>,
    program_id: Seq<u8>,
    namespace: Seq<u8>,
    ctx: RegisterModel,
    model_hash: Seq<u8>,
    model_uri: Seq<char>,
    now: i64,
    again_uri: Seq<char>,
)
    requires
        registration_outcome(
            entries,
            ctx,
            model_hash,
            model_uri,
            derived_slot(entries, program_id, namespace, ctx.payer.key@, model_hash),
        ) is Ok,
        uri_length(again_uri) <= MAX_URI_LENGTH,
    ensures
        ({
            let derived = derived_slot(entries, program_id, namespace, ctx.payer.key@, model_hash);
            let after = entries.insert(
                derived->Ok_0.0,
                fresh_entry(ctx.payer.key@, model_hash, model_uri, now),
            );
            &&& derived_slot(after, program_id, namespace, ctx.payer.key@, model_hash) == derived
            &&& registration_outcome(
                after,
                ctx,
                model_hash,
                again_uri,
                derived_slot(after, program_id, namespace, ctx.payer.key@, model_hash),
            ) == Err::<Seq<u8>, DeepchainError>(DeepchainError::IdentifierCollision)
        }),
{
    let owner = ctx.payer.key@;
    let material = seq![namespace, owner, model_hash];
    let derived = derived_slot(entries, program_id, namespace, owner, model_hash);
    let found = derived->Ok_0;
    let after = entries.insert(found.0, fresh_entry(owner, model_hash, model_uri, now));
    lemma_first_admitted(entries, program_id, material, Some(owner), 0);
    lemma_same_search(entries, after, program_id, material, owner, found, 0);
}

/// A request cannot choose its slot: whatever address it names, a
/// registration succeeds only at the slot that the payer and the digest
/// derive, and that slot is never a live entry of another owner.
pub proof fn lemma_slot_is_not_chosen(
    entries: Map<Seq<u8>, ModelAccountView>,
    program_id: Seq<u8>,
    namespace: Seq<u8>,
    ctx: RegisterModel,
    model_hash: Seq<u8>,
    model_uri: Seq<char>,
)
    ensures
        ({
            let derived = derived_slot(entries, program_id, namespace, ctx.payer.key@, model_hash);
            let outcome = registration_outcome(entries, ctx, model_hash, model_uri, derived);
            outcome is Ok ==> {
                &&& derived is Ok
                &&& outcome->Ok_0 == derived->Ok_0.0
                &&& ctx.model_account@ == derived->Ok_0.0
                &&& !entries.dom().contains(derived->Ok_0.0)
            }
        }),
{
}

proof fn lemma_same_search(
    entries: Map<Seq<u8>, ModelAccountView>,
    after: Map<Seq<u8>, ModelAccountView>,
    program_id: Seq<u8>,
    material: Seq<Seq<u8>>,
    owner: Seq<u8>,
    found: (Seq<u8>, u8),
    from: int,
)
    requires
        0 <= from <= found.1,
        !entries.dom().contains(found.0),
        after.dom().contains(found.0),
        after[found.0].owner == owner,
        forall|a: Seq<u8>| a != found.0 ==> after.dom().contains(a) == entries.dom().contains(a),
        forall|a: Seq<u8>| a != found.0 ==> after[a] == entries[a],
        candidate_address(program_id, material, found.1) == Some(found.0),
        forall|b: int|
            from <= b < found.1 ==> !admits(
                entries,
                Some(owner),
                #[trigger] candidate_address(program_id, material, b as u8),
            ),
    ensures
        first_admitted(after, program_id, material, Some(owner), from) == Some(found),
    decreases found.1 - from,
{
    if from < found.1 {
        lemma_same_search(entries, after, program_id, material, owner, found, from + 1);
    }
}

/// Only the verification authority verifies: a caller who is not the
/// authority, or who has not signed, is refused as an invalid authority or as
/// unauthorized, whatever entry the request names.
pub proof fn lemma_only_authority_verifies(
    entries: Map<Seq<u8>, ModelAccountView>,
    authority: Option<Seq<u8>>,
    ctx: VerifyModel,
)
    requires
        authority != Some(ctx.authority.key@) || !ctx.authority.is_signer,
    ensures
        verification_outcome(entries, authority, ctx) == Err::<(), DeepchainError>(
            DeepchainError::InvalidVerificationAuthority,
        ) || verification_outcome(entries, authority, ctx) == Err::<(), DeepchainError>(
            DeepchainError::UnauthorizedAccess,
        ),
{
}

/// A verification moves a live entry to the state of its verdict and leaves
/// what was fixed at registration untouched. The counter never falls, and is
/// never zero afterwards.
pub proof fn lemma_verification_step(
    entries: Map<Seq<u8>, ModelAccountView>,
    address: Seq<u8>,
    is_valid: bool,
    now: i64,
)
    requires
        entries.dom().contains(address),
    ensures
        ({
            let before = entries[address];
            let entry = verified_entry(before, is_valid, now);
            let after = entries.insert(address, entry);
            &&& entry_state(after, address) == if is_valid {
                EntryState::Verified
            } else {
                EntryState::Rejected
            }
            &&& entry.owner == before.owner
            &&& entry.model_hash == before.model_hash
            &&& entry.model_uri == before.model_uri
            &&& entry.timestamp == before.timestamp
            &&& entry.is_verified == is_valid
            &&& entry.last_verified == now
            &&& entry.verification_count >= before.verification_count
            &&& entry.verification_count > 0
            &&& before.well_formed() ==> entry.well_formed()
        }),
{
}

/// The entry after `times` verifications with the same verdict, one after
/// the other.
pub open spec fn verified_times(
    entry: ModelAccountView,
    times: nat,
    is_valid: bool,
    now: i64,
) -> ModelAccountView
    decreases times,
{
    if times == 0 {
        entry
    } else {
        verified_entry(verified_times(entry, (times - 1) as nat, is_valid, now), is_valid, now)
    }
}

/// Repeated verifications raise the counter by one each until it reaches the
/// largest value that it can hold; from then on it stays there. It never
/// wraps around.
pub proof fn lemma_counter_saturates(entry: ModelAccountView, times: nat, is_valid: bool, now: i64)
    ensures
        verified_times(entry, times, is_valid, now).verification_count == if u32::MAX
            - entry.verification_count < times {
            u32::MAX as int
        } else {
            entry.verification_count + times
        },
        verified_times(entry, times, is_valid, now).verification_count
            >= entry.verification_count,
        verified_times(entry, times, is_valid, now).owner == entry.owner,
        verified_times(entry, times, is_valid, now).model_hash == entry.model_hash,
        verified_times(entry, times, is_valid, now).model_uri == entry.model_uri,
        verified_times(entry, times, is_valid, now).timestamp == entry.timestamp,
    decreases times,
{
    if times > 0 {
        lemma_counter_saturates(entry, (times - 1) as nat, is_valid, now);
    }
}

/// Every well-formed entry fits the room that the ledger gives it.
pub proof fn lemma_entry_fits_its_space(entry: ModelAccountView)
    requires
        entry.well_formed(),
    ensures
        entry.payload_len() <= MODEL_ACCOUNT_SPACE,
{
}

/// Distinct errors are surfaced under distinct codes.
pub proof fn lemma_codes_distinguish(a: DeepchainError, b: DeepchainError)
    ensures
        a.spec_code() == b.spec_code() <==> a == b,
{
}

} // verus!
