use anchor_lang::prelude::Pubkey;
use deepchain::address::candidate;
use deepchain::authorization::Caller;
use deepchain::deepchain_registry::{register_model, RegisterModel, Registry};
use deepchain::derivation::{AUTHORITY_NAMESPACE, MODEL_NAMESPACE};
use deepchain::identity::{bytes_to_vec, equal_bytes, Identity};
use deepchain::model::{DeepchainError, ModelAccount};

fn program() -> Identity {
    Identity::new([7u8; 32])
}

fn owner(tag: u8) -> Identity {
    let mut bytes = [0u8; 32];
    bytes[0] = tag;
    bytes[31] = 0xA5;
    Identity::new(bytes)
}

fn hash(tag: u8) -> [u8; 32] {
    let mut bytes = [0u8; 32];
    bytes[5] = tag;
    bytes
}

fn expected_candidate(program: &Identity, seeds: &[&[u8]], bump: u8) -> Option<[u8; 32]> {
    let mut all: Vec<&[u8]> = seeds.to_vec();
    let last = [bump];
    all.push(&last);
    Pubkey::create_program_address(&all, &Pubkey::new_from_array(program.bytes))
        .ok()
        .map(|key| key.to_bytes())
}

fn expected_first(program: &Identity, seeds: &[&[u8]]) -> Option<([u8; 32], u8)> {
    for bump in 0..=255u8 {
        if let Some(bytes) = expected_candidate(program, seeds, bump) {
            return Some((bytes, bump));
        }
    }
    None
}

#[test]
fn namespaces_spell_their_tags() {
    assert_eq!(&MODEL_NAMESPACE, b"model");
    assert_eq!(&AUTHORITY_NAMESPACE, b"verification_auth");
}

#[test]
fn identity_compares_by_bytes() {
    let a = Identity::new([1u8; 32]);
    let b = Identity::new([1u8; 32]);
    let mut other = [1u8; 32];
    other[31] = 2;
    let c = Identity::new(other);
    assert!(a.same_as(&b));
    assert!(!a.same_as(&c));
    assert!(equal_bytes(&a.bytes, &b.bytes));
    assert!(!equal_bytes(&a.bytes, &c.bytes));
    assert_eq!(a.to_vec(), vec![1u8; 32]);
    assert_eq!(bytes_to_vec(&other), other.to_vec());
}

#[test]
fn candidate_is_the_program_address_of_the_seeds_and_the_bump() {
    let program = program();
    let who = owner(1);
    let digest = hash(9);
    let material = vec![MODEL_NAMESPACE.to_vec(), who.to_vec(), digest.to_vec()];
    let mut some = 0;
    let mut none = 0;
    for bump in 0..=255u8 {
        let got = candidate(&program, &material, bump).map(|id| id.bytes);
        let want = expected_candidate(&program, &[b"model", &who.bytes, &digest], bump);
        assert_eq!(got, want);
        match got {
            Some(bytes) => {
                some += 1;
                assert_ne!(bytes, program.bytes);
                assert_ne!(bytes, who.bytes);
            }
            None => none += 1,
        }
    }
    assert!(some > 0);
    assert!(none > 0);
}

#[test]
fn candidate_depends_on_program_seeds_and_bump() {
    let material = vec![MODEL_NAMESPACE.to_vec(), owner(1).to_vec(), hash(9).to_vec()];
    let other_material = vec![MODEL_NAMESPACE.to_vec(), owner(2).to_vec(), hash(9).to_vec()];
    let (_, bump) = expected_first(&program(), &[b"model", &owner(1).bytes, &hash(9)]).unwrap();
    let base = candidate(&program(), &material, bump).unwrap();
    let other_program = Identity::new([8u8; 32]);
    assert_ne!(candidate(&other_program, &material, bump), Some(base));
    assert_ne!(candidate(&program(), &other_material, bump), Some(base));
    assert_ne!(candidate(&program(), &material, bump.wrapping_add(1)), Some(base));
}

#[test]
fn candidate_of_an_overlong_seed_is_none() {
    let material = vec![vec![1u8; 33]];
    for bump in 0..=255u8 {
        assert_eq!(candidate(&program(), &material, bump), None);
    }
}

#[test]
fn derive_takes_the_first_bump_with_an_address() {
    let registry = Registry::with_authority(program(), None);
    let who = owner(3);
    let digest = hash(4);
    let (bytes, bump) = expected_first(&program(), &[b"model", &who.bytes, &digest]).unwrap();
    let got = registry.derive(&MODEL_NAMESPACE, &who, &digest);
    assert_eq!(got, Ok((Identity::new(bytes), bump)));
}

#[test]
fn derive_is_deterministic() {
    let registry = Registry::with_authority(program(), None);
    for tag in 1..20u8 {
        let first = registry.derive(&MODEL_NAMESPACE, &owner(tag), &hash(tag));
        let second = registry.derive(&MODEL_NAMESPACE, &owner(tag), &hash(tag));
        assert!(first.is_ok());
        assert_eq!(first, second);
    }
}

#[test]
fn derive_tells_owners_and_hashes_apart() {
    let registry = Registry::with_authority(program(), None);
    let ns = MODEL_NAMESPACE;
    let a = registry.derive(&ns, &owner(1), &hash(1)).unwrap().0;
    let b = registry.derive(&ns, &owner(2), &hash(1)).unwrap().0;
    let c = registry.derive(&ns, &owner(1), &hash(2)).unwrap().0;
    assert_ne!(a, b);
    assert_ne!(a, c);
    assert_ne!(b, c);
}

#[test]
fn derive_skips_a_slot_held_by_another_owner() {
    let who = owner(3);
    let digest = hash(4);
    let (first_bytes, first_bump) =
        expected_first(&program(), &[b"model", &who.bytes, &digest]).unwrap();
    let mut registry = Registry::with_authority(program(), None);
    let squatter = ModelAccount {
        owner: owner(99),
        model_hash: hash(1),
        model_uri: String::from("ipfs://squatter"),
        timestamp: 1,
        is_verified: false,
        verification_count: 0,
        last_verified: 0,
    };
    assert_eq!(registry.restore(Identity::new(first_bytes), squatter), Ok(()));
    let mut want = None;
    for bump in (first_bump as u16 + 1)..=255u16 {
        if let Some(bytes) =
            expected_candidate(&program(), &[b"model", &who.bytes, &digest], bump as u8)
        {
            want = Some((Identity::new(bytes), bump as u8));
            break;
        }
    }
    let got = registry.derive(&MODEL_NAMESPACE, &who, &digest);
    assert_eq!(got.ok(), want);
    assert_ne!(got.unwrap().0, Identity::new(first_bytes));
}

#[test]
fn derive_keeps_a_slot_held_by_the_same_owner() {
    let who = owner(3);
    let digest = hash(4);
    let mut registry = Registry::with_authority(program(), None);
    let before = registry.derive(&MODEL_NAMESPACE, &who, &digest).unwrap();
    let ctx = RegisterModel {
        payer: Caller { key: who, is_signer: true },
        model_account: before.0,
    };
    assert_eq!(register_model(&mut registry, &ctx, digest, String::from("ar://m"), 11), Ok(()));
    let after = registry.derive(&MODEL_NAMESPACE, &who, &digest).unwrap();
    assert_eq!(before, after);
    assert!(registry.get(&after.0).is_some());
}

#[test]
fn derive_collides_where_no_bump_has_an_address() {
    let registry = Registry::with_authority(program(), None);
    let namespace = [0x6du8; 33];
    let got = registry.derive(&namespace, &owner(1), &hash(1));
    assert_eq!(got, Err(DeepchainError::IdentifierCollision));
}

#[test]
fn admits_follows_the_collision_policy() {
    let mut registry = Registry::with_authority(program(), None);
    let taken = Identity::new([42u8; 32]);
    let free = Identity::new([43u8; 32]);
    let entry = ModelAccount {
        owner: owner(1),
        model_hash: hash(1),
        model_uri: String::new(),
        timestamp: 0,
        is_verified: false,
        verification_count: 0,
        last_verified: 0,
    };
    assert_eq!(registry.restore(taken, entry), Ok(()));
    assert!(registry.admits(&Some(owner(1)), &Some(free)));
    assert!(registry.admits(&Some(owner(1)), &Some(taken)));
    assert!(!registry.admits(&Some(owner(2)), &Some(taken)));
    assert!(registry.admits(&None, &Some(free)));
    assert!(!registry.admits(&None, &Some(taken)));
    assert!(!registry.admits(&Some(owner(1)), &None));
    assert!(!registry.admits(&None, &None));
}

#[test]
fn new_registry_resolves_its_authority() {
    let registry = Registry::new(program());
    let (bytes, _) = expected_first(&program(), &[b"verification_auth"]).unwrap();
    assert_eq!(registry.verification_authority(), Some(Identity::new(bytes)));
    assert_eq!(registry.program_id(), program());
    let other = Registry::new(Identity::new([8u8; 32]));
    assert_ne!(other.verification_authority(), registry.verification_authority());
    let again = Registry::new(program());
    assert_eq!(again.verification_authority(), registry.verification_authority());
}
