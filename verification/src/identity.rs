//! Thirty-two byte identities: public keys of callers and addresses of storage slots.

use vstd::prelude::*;

verus! {

/// The identity of a party or the address of a storage slot.
#[derive(Clone, Copy, Debug, PartialEq, Eq, Hash)]
pub struct Identity {
    pub bytes: [u8; 32],
}

impl View for Identity {
    type V = Seq<u8>;

    open spec fn view(&self) -> Seq<u8> {
        self.bytes@
    }
}

impl Identity {
    /// Wraps thirty-two bytes as an identity.
    pub fn new(bytes: [u8; 32]) -> (id: Identity)
        ensures
            id@ == bytes@,
            id.bytes == bytes,
    {
        Identity { bytes }
    }

    /// Whether two identities hold the same bytes.
    pub fn same_as(&self, other: &Identity) -> (same: bool)
        ensures
            same == (self@ == other@),
    {
        equal_bytes(&self.bytes, &other.bytes)
    }

    /// The bytes of the identity as a growable vector.
    pub fn to_vec(&self) -> (v: Vec<u8>)
        ensures
            v@ == self@,
    {
        bytes_to_vec(&self.bytes)
    }
}

/// Whether two thirty-two byte arrays hold the same bytes.
pub fn equal_bytes(a: &[u8; 32], b: &[u8; 32]) -> (same: bool)
    ensures
        same == (a@ == b@),
{
    let mut i: usize = 0;
    while i < 32
        invariant
            i <= 32,
            forall|j: int| 0 <= j < i ==> a@[j] == b@[j],
        decreases 32 - i,
    {
        if a[i] != b[i] {
            return false;
        }
        i += 1;
    }
    assert(a@ =~= b@);
    true
}

/// Copies a thirty-two byte array into a vector.
pub fn bytes_to_vec(a: &[u8; 32]) -> (v: Vec<u8>)
    ensures
        v@ == a@,
{
    let mut v: Vec<u8> = Vec::new();
    let mut i: usize = 0;
    while i < 32
        invariant
            i <= 32,
            v@.len() == i,
            forall|j: int| 0 <= j < i ==> v@[j] == a@[j],
        decreases 32 - i,
    {
        v.push(a[i]);
        i += 1;
    }
    v
}

/// Two identities with the same bytes are the same identity.
pub proof fn lemma_identity_by_bytes(a: Identity, b: Identity)
    requires
        a@ == b@,
    ensures
        a == b,
{
    assert(a.bytes =~= b.bytes);
}

} // verus!
