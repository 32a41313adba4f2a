//! A registered model and the rules that every entry of a registry obeys.

use vstd::prelude::*;
use vstd::utf8::encode_utf8;
use crate::identity::Identity;

verus! {

/// The longest storage URI that an entry may carry, in bytes of its UTF-8
/// form. A URI of plain ASCII has as many bytes as characters.
pub const MAX_URI_LENGTH: usize = 256;

/// The room that the ledger gives to the payload of one entry, in bytes.
pub const MODEL_ACCOUNT_SPACE: usize = 349;

/// The bytes that an entry takes besides its URI: the owner, the digest, the
/// length prefix of the URI, the two times, the verdict and the counter.
pub const FIXED_PAYLOAD: usize = 89;

/// The first code of the registry's errors; each error adds its position to it.
pub const ERROR_CODE_OFFSET: u32 = 6000;

/// Why a registry request was refused.
#[derive(Clone, Copy, Debug, PartialEq, Eq, Structural)]
pub enum DeepchainError {
    /// The storage URI is longer than `MAX_URI_LENGTH` bytes.
    UriTooLong,
    /// The content hash is all zero.
    InvalidHash,
    /// The caller did not prove control of the identity that the request needs.
    UnauthorizedAccess,
    /// The caller is not the registry's verification authority.
    InvalidVerificationAuthority,
    /// No free slot could be derived for the entry.
    IdentifierCollision,
}

impl DeepchainError {
    /// The stable numeric code of the error.
    pub open spec fn spec_code(self) -> u32 {
        match self {
            DeepchainError::UriTooLong => 6000,
            DeepchainError::InvalidHash => 6001,
            DeepchainError::UnauthorizedAccess => 6002,
            DeepchainError::InvalidVerificationAuthority => 6003,
            DeepchainError::IdentifierCollision => 6004,
        }
    }

    /// The stable numeric code under which the error is surfaced.
    pub fn code(&self) -> (code: u32)
        ensures
            code == self.spec_code(),
    {
        match self {
            DeepchainError::UriTooLong => ERROR_CODE_OFFSET,
            DeepchainError::InvalidHash => ERROR_CODE_OFFSET + 1,
            DeepchainError::UnauthorizedAccess => ERROR_CODE_OFFSET + 2,
            DeepchainError::InvalidVerificationAuthority => ERROR_CODE_OFFSET + 3,
            DeepchainError::IdentifierCollision => ERROR_CODE_OFFSET + 4,
        }
    }

    /// The text of the error.
    pub open spec fn spec_message(self) -> Seq<char> {
        match self {
            DeepchainError::UriTooLong => "URI exceeds maximum length (256 characters)"@,
            DeepchainError::InvalidHash => "Invalid model hash format"@,
            DeepchainError::UnauthorizedAccess => "Unauthorized access attempt"@,
            DeepchainError::InvalidVerificationAuthority => "Verification authority mismatch"@,
            DeepchainError::IdentifierCollision => "No free slot at the derived identifier"@,
        }
    }

    /// The text with which the error is reported.
    pub fn message(&self) -> (text: &'static str)
        ensures
            text@ == self.spec_message(),
    {
        match self {
            DeepchainError::UriTooLong => "URI exceeds maximum length (256 characters)",
            DeepchainError::InvalidHash => "Invalid model hash format",
            DeepchainError::UnauthorizedAccess => "Unauthorized access attempt",
            DeepchainError::InvalidVerificationAuthority => "Verification authority mismatch",
            DeepchainError::IdentifierCollision => "No free slot at the derived identifier",
        }
    }
}

/// One registered model.
#[derive(Clone, Debug, PartialEq, Eq)]
pub struct ModelAccount {
    /// Who registered the model.
    pub owner: Identity,
    /// The digest of the model's content.
    pub model_hash: [u8; 32],
    /// Where the model is stored.
    pub model_uri: String,
    /// When the model was registered.
    pub timestamp: i64,
    /// The verdict of the latest verification.
    pub is_verified: bool,
    /// How many verifications the entry has seen; it stops at the largest value.
    pub verification_count: u32,
    /// When the entry was last verified.
    pub last_verified: i64,
}

/// A registered model as a mathematical value.
pub struct ModelAccountView {
    pub owner: Seq<u8>,
    pub model_hash: Seq<u8>,
    pub model_uri: Seq<char>,
    pub timestamp: i64,
    pub is_verified: bool,
    pub verification_count: u32,
    pub last_verified: i64,
}

impl View for ModelAccount {
    type V = ModelAccountView;

    open spec fn view(&self) -> ModelAccountView {
        ModelAccountView {
            owner: self.owner@,
            model_hash: self.model_hash@,
            model_uri: self.model_uri@,
            timestamp: self.timestamp,
            is_verified: self.is_verified,
            verification_count: self.verification_count,
            last_verified: self.last_verified,
        }
    }
}

/// The length of a URI: the number of bytes of its UTF-8 form.
pub open spec fn uri_length(model_uri: Seq<char>) -> nat {
    encode_utf8(model_uri).len()
}

/// Whether every byte of the sequence is zero.
pub open spec fn all_zero(bytes: Seq<u8>) -> bool {
    forall|i: int| 0 <= i < bytes.len() ==> bytes[i] == 0
}

impl ModelAccountView {
    /// What holds of every entry of a registry: the digest is not all zero and
    /// the URI is at most `MAX_URI_LENGTH` long.
    pub open spec fn well_formed(self) -> bool {
        &&& uri_length(self.model_uri) <= MAX_URI_LENGTH
        &&& !all_zero(self.model_hash)
    }

    /// The size of the entry's payload on the ledger, in bytes.
    pub open spec fn payload_len(self) -> nat {
        FIXED_PAYLOAD as nat + uri_length(self.model_uri)
    }
}

impl ModelAccount {
    /// The size of the entry's payload on the ledger, in bytes. A size that
    /// no `usize` holds is given as `usize::MAX`.
    pub fn payload_len(&self) -> (len: usize)
        ensures
            len == if self@.payload_len() > usize::MAX {
                usize::MAX as nat
            } else {
                self@.payload_len()
            },
    {
        FIXED_PAYLOAD.saturating_add(self.model_uri.as_str().as_bytes().len())
    }
}

/// The verdict on the metadata of a registration: the URI is judged first,
/// then the digest.
pub open spec fn metadata_verdict(model_hash: Seq<u8>, model_uri: Seq<char>) -> Result<
    (),
    DeepchainError,
> {
    if uri_length(model_uri) > MAX_URI_LENGTH {
        Err(DeepchainError::UriTooLong)
    } else if all_zero(model_hash) {
        Err(DeepchainError::InvalidHash)
    } else {
        Ok(())
    }
}

/// Validation of the parameters of a registration.
pub struct CheckModelMetadata;

impl CheckModelMetadata {
    /// Accepts a digest and a URI for registration, or says which of them is
    /// at fault.
    pub fn validate(model_hash: &[u8; 32], model_uri: &str) -> (verdict: Result<
        (),
        DeepchainError,
    >)
        ensures
            verdict == metadata_verdict(model_hash@, model_uri@),
    {
        if model_uri.as_bytes().len() > MAX_URI_LENGTH {
            return Err(DeepchainError::UriTooLong);
        }
        let mut i: usize = 0;
        while i < 32
            invariant
                i <= 32,
                uri_length(model_uri@) <= MAX_URI_LENGTH,
                forall|j: int| 0 <= j < i ==> model_hash@[j] == 0,
            decreases 32 - i,
        {
            if model_hash[i] != 0 {
                return Ok(());
            }
            i += 1;
        }
        Err(DeepchainError::InvalidHash)
    }
}

/// Where a slot stands in the life of an entry.
#[derive(Clone, Copy, Debug, PartialEq, Eq, Structural)]
pub enum EntryState {
    /// No entry lives at the address.
    Uninitialized,
    /// The entry exists and has never been verified.
    Registered,
    /// The latest verification found the entry valid.
    Verified,
    /// The latest verification found the entry invalid.
    Rejected,
}

/// The state of the slot at `address`.
pub open spec fn entry_state(
    entries: Map<Seq<u8>, ModelAccountView>,
    address: Seq<u8>,
) -> EntryState {
    if !entries.dom().contains(address) {
        EntryState::Uninitialized
    } else if entries[address].verification_count == 0 {
        EntryState::Registered
    } else if entries[address].is_verified {
        EntryState::Verified
    } else {
        EntryState::Rejected
    }
}

/// The entry that a registration creates.
pub open spec fn fresh_entry(
    owner: Seq<u8>,
    model_hash: Seq<u8>,
    model_uri: Seq<char>,
    now: i64,
) -> ModelAccountView {
    ModelAccountView {
        owner,
        model_hash,
        model_uri,
        timestamp: now,
        is_verified: false,
        verification_count: 0,
        last_verified: 0,
    }
}

/// The entry after one verification: the verdict and its time are recorded,
/// the counter moves up by one and stops at its largest value, and nothing
/// else changes.
pub open spec fn verified_entry(
    entry: ModelAccountView,
    is_valid: bool,
    now: i64,
) -> ModelAccountView {
    ModelAccountView {
        is_verified: is_valid,
        verification_count: entry.verification_count.saturating_add(1),
        last_verified: now,
        ..entry
    }
}

} // verus!
