//! The model registry: entries keyed by derived address, registered by their
//! owner and verified by the registry's single authority.

use vstd::prelude::*;
use crate::address::{candidate, identity_view, seed_bytes};
use crate::authorization::{authority_verdict, authorize, authorize_authority, Caller};
use crate::derivation::{
    admits, authority_of, derivation_view, derived_slot, first_admitted, AUTHORITY_NAMESPACE,
    MODEL_NAMESPACE,
};
use crate::identity::{bytes_to_vec, Identity};
use crate::model::{
    all_zero, entry_state, fresh_entry, metadata_verdict, uri_length, verified_entry,
    CheckModelMetadata, DeepchainError, EntryState, ModelAccount, ModelAccountView,
    MAX_URI_LENGTH,
};

verus! {

/// How putting an existing entry into the registry ends: the entry's URI and
/// digest are judged first, then the slot.
pub open spec fn restoration_outcome(
    entries: Map<Seq<u8>, ModelAccountView>,
    address: Seq<u8>,
    entry: ModelAccountView,
) -> Result<(), DeepchainError> {
    match metadata_verdict(entry.model_hash, entry.model_uri) {
        Err(e) => Err(e),
        Ok(_) => if entries.dom().contains(address) {
            Err(DeepchainError::IdentifierCollision)
        } else {
            Ok(())
        },
    }
}

struct ModelSlot {
    address: Identity,
    entry: ModelAccount,
}

spec fn holds(slots: Seq<ModelSlot>, address: Seq<u8>) -> bool {
    exists|i: int| #![trigger slots[i]] 0 <= i < slots.len() && slots[i].address@ == address
}

spec fn index_of(slots: Seq<ModelSlot>, address: Seq<u8>) -> int {
    choose|i: int| #![trigger slots[i]] 0 <= i < slots.len() && slots[i].address@ == address
}

spec fn entries_of(slots: Seq<ModelSlot>) -> Map<Seq<u8>, ModelAccountView> {
    Map::new(|a: Seq<u8>| holds(slots, a), |a: Seq<u8>| slots[index_of(slots, a)].entry@)
}

spec fn distinct(slots: Seq<ModelSlot>) -> bool {
    forall|i: int, j: int|
        #![trigger slots[i], slots[j]]
        0 <= i < j < slots.len() ==> slots[i].address@ != slots[j].address@
}

spec fn sound(slots: Seq<ModelSlot>) -> bool {
    forall|i: int| #![trigger slots[i]] 0 <= i < slots.len() ==> slots[i].entry@.well_formed()
}

proof fn lemma_entry_at(slots: Seq<ModelSlot>, i: int)
    requires
        distinct(slots),
        0 <= i < slots.len(),
    ensures
        entries_of(slots).dom().contains(slots[i].address@),
        entries_of(slots)[slots[i].address@] == slots[i].entry@,
{
    let k = index_of(slots, slots[i].address@);
    assert(slots[k].address@ == slots[i].address@);
}

proof fn lemma_pushed(slots: Seq<ModelSlot>, slot: ModelSlot)
    requires
        distinct(slots),
        !holds(slots, slot.address@),
    ensures
        distinct(slots.push(slot)),
        entries_of(slots.push(slot)) == entries_of(slots).insert(slot.address@, slot.entry@),
{
    let grown = slots.push(slot);
    assert forall|i: int, j: int| 0 <= i < j < grown.len() implies grown[i].address@
        != grown[j].address@ by {
        if j == slots.len() {
            assert(grown[i] == slots[i]);
        }
    }
    assert forall|a: Seq<u8>| #[trigger]
        entries_of(grown).dom().contains(a) == entries_of(slots).insert(
            slot.address@,
            slot.entry@,
        ).dom().contains(a) by {
        if holds(grown, a) {
            let k = index_of(grown, a);
            if k < slots.len() {
                assert(grown[k] == slots[k]);
            }
        }
        if holds(slots, a) {
            let k = index_of(slots, a);
            assert(grown[k] == slots[k]);
        }
        if a == slot.address@ {
            assert(grown[slots.len() as int] == slot);
        }
    }
    assert forall|a: Seq<u8>| entries_of(grown).dom().contains(a) implies #[trigger] entries_of(
        grown,
    )[a] == entries_of(slots).insert(slot.address@, slot.entry@)[a] by {
        let k = index_of(grown, a);
        lemma_entry_at(grown, k);
        if k < slots.len() {
            lemma_entry_at(slots, k);
        }
    }
}

proof fn lemma_replaced(slots: Seq<ModelSlot>, i: int, slot: ModelSlot)
    requires
        distinct(slots),
        0 <= i < slots.len(),
        slot.address@ == slots[i].address@,
    ensures
        distinct(slots.update(i, slot)),
        entries_of(slots.update(i, slot)) == entries_of(slots).insert(slot.address@, slot.entry@),
{
    let changed = slots.update(i, slot);
    assert forall|p: int, q: int| 0 <= p < q < changed.len() implies changed[p].address@
        != changed[q].address@ by {
        assert(changed[p].address@ == slots[p].address@);
        assert(changed[q].address@ == slots[q].address@);
    }
    assert forall|a: Seq<u8>| #[trigger]
        entries_of(changed).dom().contains(a) == entries_of(slots).insert(
            slot.address@,
            slot.entry@,
        ).dom().contains(a) by {
        if holds(changed, a) {
            let k = index_of(changed, a);
            assert(changed[k].address@ == slots[k].address@);
        }
        if holds(slots, a) {
            let k = index_of(slots, a);
            assert(changed[k].address@ == slots[k].address@);
        }
    }
    assert forall|a: Seq<u8>| entries_of(changed).dom().contains(a) implies #[trigger] entries_of(
        changed,
    )[a] == entries_of(slots).insert(slot.address@, slot.entry@)[a] by {
        let k = index_of(changed, a);
        lemma_entry_at(changed, k);
        if k != i {
            lemma_entry_at(slots, k);
            lemma_entry_at(slots, i);
        }
    }
}

/// The registry of one program: its entries by address, and the single
/// authority that may verify them.
pub struct Registry {
    program_id: Identity,
    authority: Option<Identity>,
    slots: Vec<ModelSlot>,
}

impl View for Registry {
    type V = Map<Seq<u8>, ModelAccountView>;

    closed spec fn view(&self) -> Map<Seq<u8>, ModelAccountView> {
        entries_of(self.slots@)
    }
}

impl Registry {
    #[verifier::type_invariant]
    spec fn inv(self) -> bool {
        distinct(self.slots@) && sound(self.slots@)
    }

    /// The identity of the program that owns the registry.
    pub closed spec fn program(&self) -> Seq<u8> {
        self.program_id@
    }

    /// The identity of the verification authority, where there is one.
    pub closed spec fn authority(&self) -> Option<Seq<u8>> {
        identity_view(self.authority)
    }

    /// An empty registry of the program `program_id` with the given
    /// verification authority.
    pub fn with_authority(program_id: Identity, authority: Option<Identity>) -> (registry: Registry)
        ensures
            registry@ == Map::<Seq<u8>, ModelAccountView>::empty(),
            registry.program() == program_id@,
            registry.authority() == identity_view(authority),
    {
        Registry { program_id, authority, slots: Vec::new() }
    }

    /// An empty registry of the program `program_id`. Its verification
    /// authority is resolved here, once: the address that the authority's
    /// namespace derives under the program.
    pub fn new(program_id: Identity) -> (registry: Registry)
        ensures
            registry@ == Map::<Seq<u8>, ModelAccountView>::empty(),
            registry.program() == program_id@,
            registry.authority() == authority_of(program_id@),
    {
        let blank = Registry::with_authority(program_id, None);
        let mut material: Vec<Vec<u8>> = Vec::new();
        material.push(vstd::slice::slice_to_vec(AUTHORITY_NAMESPACE.as_slice()));
        assert(seed_bytes(&material) =~~= seq![AUTHORITY_NAMESPACE@]);
        let authority = match blank.search(&material, &None) {
            Some(found) => Some(found.0),
            None => None,
        };
        Registry::with_authority(program_id, authority)
    }

    /// The identity of the program that owns the registry.
    pub fn program_id(&self) -> (id: Identity)
        ensures
            id@ == self.program(),
    {
        self.program_id
    }

    /// The identity of the verification authority, where there is one.
    pub fn verification_authority(&self) -> (authority: Option<Identity>)
        ensures
            identity_view(authority) == self.authority(),
    {
        self.authority
    }

    fn position(&self, address: &Identity) -> (at: Option<usize>)
        ensures
            match at {
                Some(i) => i < self.slots@.len() && self.slots@[i as int].address@ == address@,
                None => !holds(self.slots@, address@),
            },
    {
        let mut i: usize = 0;
        while i < self.slots.len()
            invariant
                i <= self.slots@.len(),
                forall|j: int|
                    #![trigger self.slots@[j]]
                    0 <= j < i ==> self.slots@[j].address@ != address@,
            decreases self.slots@.len() - i,
        {
            if self.slots[i].address.same_as(address) {
                return Some(i);
            }
            i += 1;
        }
        None
    }

    /// The entry at `address`, where one lives there.
    pub fn get(&self, address: &Identity) -> (entry: Option<&ModelAccount>)
        ensures
            match entry {
                Some(e) => self@.dom().contains(address@) && self@[address@] == e@
                    && e@.well_formed(),
                None => !self@.dom().contains(address@),
            },
    {
        proof {
            use_type_invariant(&*self);
        }
        match self.position(address) {
            Some(i) => {
                proof {
                    lemma_entry_at(self.slots@, i as int);
                }
                Some(&self.slots[i].entry)
            },
            None => None,
        }
    }

    /// Where the slot at `address` stands in the life of an entry.
    pub fn state_of(&self, address: &Identity) -> (state: EntryState)
        ensures
            state == entry_state(self@, address@),
    {
        match self.get(address) {
            None => EntryState::Uninitialized,
            Some(entry) => {
                if entry.verification_count == 0 {
                    EntryState::Registered
                } else if entry.is_verified {
                    EntryState::Verified
                } else {
                    EntryState::Rejected
                }
            },
        }
    }

    /// Whether a candidate address may be given to `holder`: there is a
    /// candidate, and it names no live entry of another owner. With no
    /// holder, it must name no live entry at all.
    pub fn admits(&self, holder: &Option<Identity>, candidate: &Option<Identity>) -> (admitted:
        bool)
        ensures
            admitted == admits(self@, identity_view(*holder), identity_view(*candidate)),
    {
        match candidate {
            None => false,
            Some(address) => match self.get(address) {
                None => true,
                Some(entry) => match holder {
                    Some(h) => entry.owner.same_as(h),
                    None => false,
                },
            },
        }
    }

    fn place(&mut self, address: Identity, entry: ModelAccount)
        requires
            entry@.well_formed(),
            !old(self)@.dom().contains(address@),
        ensures
            final(self).program() == old(self).program(),
            final(self).authority() == old(self).authority(),
            final(self)@ == old(self)@.insert(address@, entry@),
    {
        proof {
            use_type_invariant(&*self);
        }
        let slot = ModelSlot { address, entry };
        proof {
            lemma_pushed(self.slots@, slot);
        }
        let mut slots: Vec<ModelSlot> = Vec::new();
        std::mem::swap(&mut slots, &mut self.slots);
        slots.push(slot);
        self.slots = slots;
    }

    /// Puts an entry that exists on the ledger into the registry, at its
    /// address. The entry is held to what holds of every entry, and the slot
    /// must be free; a refused entry leaves the registry unchanged.
    pub fn restore(&mut self, address: Identity, entry: ModelAccount) -> (done: Result<
        (),
        DeepchainError,
    >)
        ensures
            final(self).program() == old(self).program(),
            final(self).authority() == old(self).authority(),
            match restoration_outcome(old(self)@, address@, entry@) {
                Ok(_) => done is Ok && final(self)@ == old(self)@.insert(address@, entry@),
                Err(e) => done == Err::<(), DeepchainError>(e) && final(self)@ == old(self)@,
            },
    {
        match CheckModelMetadata::validate(&entry.model_hash, entry.model_uri.as_str()) {
            Err(e) => {
                return Err(e);
            },
            Ok(_) => {},
        }
        if self.get(&address).is_some() {
            return Err(DeepchainError::IdentifierCollision);
        }
        self.place(address, entry);
        Ok(())
    }

    fn search(&self, material: &Vec<Vec<u8>>, holder: &Option<Identity>) -> (found: Option<
        (Identity, u8),
    >)
        ensures
            match found {
                Some(slot) => first_admitted(
                    self@,
                    self.program(),
                    seed_bytes(material),
                    identity_view(*holder),
                    0,
                ) == Some((slot.0@, slot.1)),
                None => first_admitted(
                    self@,
                    self.program(),
                    seed_bytes(material),
                    identity_view(*holder),
                    0,
                ) is None,
            },
    {
        let mut bump: u16 = 0;
        while bump < 256
            invariant
                bump <= 256,
                first_admitted(
                    self@,
                    self.program(),
                    seed_bytes(material),
                    identity_view(*holder),
                    0,
                ) == first_admitted(
                    self@,
                    self.program(),
                    seed_bytes(material),
                    identity_view(*holder),
                    bump as int,
                ),
            decreases 256 - bump,
        {
            let found = candidate(&self.program_id, material, bump as u8);
            match found {
                Some(address) => {
                    if self.admits(holder, &found) {
                        return Some((address, bump as u8));
                    }
                },
                None => {},
            }
            bump += 1;
        }
        None
    }

    /// Derives the slot of the entry of `owner` with digest `content_hash`
    /// under `namespace`. The bump is searched upward from zero; the first
    /// candidate that does not name a live entry of another owner is the
    /// slot. Where no bump has such a candidate the derivation collides.
    pub fn derive(&self, namespace: &[u8], owner: &Identity, content_hash: &[u8; 32]) -> (slot:
        Result<(Identity, u8), DeepchainError>)
        ensures
            derivation_view(slot) == derived_slot(
                self@,
                self.program(),
                namespace@,
                owner@,
                content_hash@,
            ),
    {
        let mut material: Vec<Vec<u8>> = Vec::new();
        material.push(vstd::slice::slice_to_vec(namespace));
        material.push(owner.to_vec());
        material.push(bytes_to_vec(content_hash));
        assert(seed_bytes(&material) =~~= seq![namespace@, owner@, content_hash@]);
        match self.search(&material, &Some(*owner)) {
            Some(found) => Ok(found),
            None => Err(DeepchainError::IdentifierCollision),
        }
    }
}

/// The accounts of a registration.
#[derive(Clone, Copy, Debug, PartialEq, Eq)]
pub struct RegisterModel {
    /// The caller, who becomes the owner of the entry.
    pub payer: Caller,
    /// The address at which the entry is to be created. It must be the slot
    /// that the payer and the digest derive.
    pub model_account: Identity,
}

/// The accounts of a verification.
#[derive(Clone, Copy, Debug, PartialEq, Eq)]
pub struct VerifyModel {
    /// The address of the entry to verify.
    pub model_account: Identity,
    /// The owner that the entry is expected to have.
    pub owner: Identity,
    /// The caller, who must be the verification authority.
    pub authority: Caller,
}

/// How a registration ends, given the slot that was derived for it: with the
/// address of the new entry, or with the first fault found. The URI is judged
/// first, then the digest, then the payer's signature, then the derivation;
/// then the request must name the derived slot, and the slot must be free.
pub open spec fn registration_outcome(
    entries: Map<Seq<u8>, ModelAccountView>,
    ctx: RegisterModel,
    model_hash: Seq<u8>,
    model_uri: Seq<char>,
    derived: Result<(Seq<u8>, u8), DeepchainError>,
) -> Result<Seq<u8>, DeepchainError> {
    if uri_length(model_uri) > MAX_URI_LENGTH {
        Err(DeepchainError::UriTooLong)
    } else if all_zero(model_hash) {
        Err(DeepchainError::InvalidHash)
    } else if !ctx.payer.is_signer {
        Err(DeepchainError::UnauthorizedAccess)
    } else {
        match derived {
            Err(e) => Err(e),
            Ok(found) => if found.0 != ctx.model_account@ {
                Err(DeepchainError::UnauthorizedAccess)
            } else if entries.dom().contains(found.0) {
                Err(DeepchainError::IdentifierCollision)
            } else {
                Ok(found.0)
            },
        }
    }
}

/// How a verification ends: the caller must be the authority and have signed,
/// and the entry must exist and have the owner that the request names.
pub open spec fn verification_outcome(
    entries: Map<Seq<u8>, ModelAccountView>,
    authority: Option<Seq<u8>>,
    ctx: VerifyModel,
) -> Result<(), DeepchainError> {
    match authority_verdict(ctx.authority, authority) {
        Err(e) => Err(e),
        Ok(_) => if entries.dom().contains(ctx.model_account@) && entries[ctx.model_account@].owner
            == ctx.owner@ {
            Ok(())
        } else {
            Err(DeepchainError::UnauthorizedAccess)
        },
    }
}

/// Registers a model, given the slot `derived` for it. On success the
/// registry gains exactly one entry, unverified and never verified, that
/// holds the payer as owner and the digest, the URI and the time as given. On
/// failure the registry is unchanged.
pub fn register_model_at(
    registry: &mut Registry,
    ctx: &RegisterModel,
    model_hash: [u8; 32],
    model_uri: String,
    now: i64,
    derived: Result<(Identity, u8), DeepchainError>,
) -> (done: Result<(), DeepchainError>)
    ensures
        final(registry).program() == old(registry).program(),
        final(registry).authority() == old(registry).authority(),
        match registration_outcome(
            old(registry)@,
            *ctx,
            model_hash@,
            model_uri@,
            derivation_view(derived),
        ) {
            Ok(address) => done is Ok && final(registry)@ == old(registry)@.insert(
                address,
                fresh_entry(ctx.payer.key@, model_hash@, model_uri@, now),
            ),
            Err(e) => done == Err::<(), DeepchainError>(e) && final(registry)@ == old(registry)@,
        },
{
    match CheckModelMetadata::validate(&model_hash, model_uri.as_str()) {
        Err(e) => {
            return Err(e);
        },
        Ok(_) => {},
    }
    match authorize(&ctx.payer, &ctx.payer.key) {
        Err(e) => {
            return Err(e);
        },
        Ok(_) => {},
    }
    let address = match derived {
        Err(e) => {
            return Err(e);
        },
        Ok(found) => found.0,
    };
    if !address.same_as(&ctx.model_account) {
        return Err(DeepchainError::UnauthorizedAccess);
    }
    if registry.get(&address).is_some() {
        return Err(DeepchainError::IdentifierCollision);
    }
    let entry = ModelAccount {
        owner: ctx.payer.key,
        model_hash,
        model_uri,
        timestamp: now,
        is_verified: false,
        verification_count: 0,
        last_verified: 0,
    };
    registry.place(address, entry);
    Ok(())
}

/// Registers a model for the payer: the slot is derived from the payer and
/// the digest under the namespace of model entries, and the entry is created
/// there.
pub fn register_model(
    registry: &mut Registry,
    ctx: &RegisterModel,
    model_hash: [u8; 32],
    model_uri: String,
    now: i64,
) -> (done: Result<(), DeepchainError>)
    ensures
        final(registry).program() == old(registry).program(),
        final(registry).authority() == old(registry).authority(),
        match registration_outcome(
            old(registry)@,
            *ctx,
            model_hash@,
            model_uri@,
            derived_slot(
                old(registry)@,
                old(registry).program(),
                MODEL_NAMESPACE@,
                ctx.payer.key@,
                model_hash@,
            ),
        ) {
            Ok(address) => done is Ok && final(registry)@ == old(registry)@.insert(
                address,
                fresh_entry(ctx.payer.key@, model_hash@, model_uri@, now),
            ),
            Err(e) => done == Err::<(), DeepchainError>(e) && final(registry)@ == old(registry)@,
        },
{
    let derived = registry.derive(MODEL_NAMESPACE.as_slice(), &ctx.payer.key, &model_hash);
    register_model_at(registry, ctx, model_hash, model_uri, now, derived)
}

/// Records the authority's verdict on an entry. On success the entry holds
/// the verdict and its time, its counter has moved up by one unless it stood
/// at its largest value, and nothing else in the registry has changed. On
/// failure the registry is unchanged.
pub fn verify_model(registry: &mut Registry, ctx: &VerifyModel, is_valid: bool, now: i64) -> (done:
    Result<(), DeepchainError>)
    ensures
        final(registry).program() == old(registry).program(),
        final(registry).authority() == old(registry).authority(),
        match verification_outcome(old(registry)@, old(registry).authority(), *ctx) {
            Ok(_) => done is Ok && final(registry)@ == old(registry)@.insert(
                ctx.model_account@,
                verified_entry(old(registry)@[ctx.model_account@], is_valid, now),
            ),
            Err(e) => done == Err::<(), DeepchainError>(e) && final(registry)@ == old(registry)@,
        },
{
    proof {
        use_type_invariant(&*registry);
    }
    match authorize_authority(&ctx.authority, &registry.authority) {
        Err(e) => {
            return Err(e);
        },
        Ok(_) => {},
    }
    let i = match registry.position(&ctx.model_account) {
        None => {
            return Err(DeepchainError::UnauthorizedAccess);
        },
        Some(i) => i,
    };
    proof {
        lemma_entry_at(registry.slots@, i as int);
    }
    if !registry.slots[i].entry.owner.same_as(&ctx.owner) {
        return Err(DeepchainError::UnauthorizedAccess);
    }
    let ghost before = registry.slots@;
    let mut slots: Vec<ModelSlot> = Vec::new();
    std::mem::swap(&mut slots, &mut registry.slots);
    let slot = &mut slots[i];
    slot.entry.is_verified = is_valid;
    slot.entry.verification_count = slot.entry.verification_count.saturating_add(1);
    slot.entry.last_verified = now;
    proof {
        lemma_replaced(before, i as int, slots@[i as int]);
    }
    registry.slots = slots;
    Ok(())
}

} // verus!
