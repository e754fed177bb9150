//! BLAKE3 identities.
use crate::codec::{array_16, array_32, copy_16, copy_32};
use vstd::prelude::*;

verus! {

/// The BLAKE3 hash of some bytes.
pub uninterp spec fn blake3_hash(bytes: Seq<u8>) -> [u8; 32];

/// The BLAKE3 key derived from some bytes under a context.
pub uninterp spec fn blake3_derive_key(context: Seq<char>, material: Seq<u8>) -> [u8; 32];

/// `blake3::hash`: a 32-byte value that depends on the bytes alone. That
/// different bytes have different hashes is not claimed.
#[verifier::external_body]
pub(crate) fn hash(bytes: &[u8]) -> (digest: [u8; 32])
    ensures
        digest == blake3_hash(bytes@),
{
    *blake3::hash(bytes).as_bytes()
}

/// `blake3::derive_key`: a 32-byte value that depends on the context and the
/// material alone.
#[verifier::external_body]
pub(crate) fn derive_key(context: &str, material: &[u8]) -> (key: [u8; 32])
    ensures
        key == blake3_derive_key(context@, material@),
{
    blake3::derive_key(context, material)
}

/// The 16 bytes at the front of a 32-byte key.
pub open spec fn front(key: [u8; 32]) -> [u8; 16] {
    crate::codec::array_16(key@)
}

/// Cut an identity out of a derived key.
pub fn cut(key: &[u8; 32]) -> (id: [u8; 16])
    ensures
        id == front(*key),
        id@ == key@.take(16),
{
    crate::codec::copy_16(key.as_slice())
}

/// Whether two identities hold the same bytes.
pub fn same_16(a: &[u8; 16], b: &[u8; 16]) -> (same: bool)
    ensures
        same == (*a == *b),
{
    let mut i: usize = 0;
    while i < 16
        invariant
            i <= 16,
            forall|j: int| 0 <= j < i ==> a@[j] == b@[j],
        decreases 16 - i,
    {
        if a[i] != b[i] {
            assert(a@[i as int] != b@[i as int]);
            return false;
        }
        i += 1;
    }
    assert(*a =~= *b);
    true
}

/// Whether two hashes hold the same bytes.
pub fn same_32(a: &[u8; 32], b: &[u8; 32]) -> (same: bool)
    ensures
        same == (*a == *b),
{
    let mut i: usize = 0;
    while i < 32
        invariant
            i <= 32,
            forall|j: int| 0 <= j < i ==> a@[j] == b@[j],
        decreases 32 - i,
    {
        if a[i] != b[i] {
            assert(a@[i as int] != b@[i as int]);
            return false;
        }
        i += 1;
    }
    assert(*a =~= *b);
    true
}

/// Whether two byte strings are equal.
pub fn same_bytes(a: &[u8], b: &[u8]) -> (same: bool)
    ensures
        same == (a@ == b@),
{
    if a.len() != b.len() {
        return false;
    }
    let mut i: usize = 0;
    while i < a.len()
        invariant
            i <= a.len(),
            a@.len() == b@.len(),
            forall|j: int| 0 <= j < i ==> a@[j] == b@[j],
        decreases a.len() - i,
    {
        if a[i] != b[i] {
            assert(a@[i as int] != b@[i as int]);
            return false;
        }
        i += 1;
    }
    assert(a@ =~= b@);
    true
}

/// Whether every byte of an identity is zero.
pub open spec fn zero_16(id: [u8; 16]) -> bool {
    forall|j: int| 0 <= j < 16 ==> id@[j] == 0
}

/// Test for the zero identity.
pub fn is_zero_16(id: &[u8; 16]) -> (zero: bool)
    ensures
        zero == zero_16(*id),
{
    let mut i: usize = 0;
    while i < 16
        invariant
            i <= 16,
            forall|j: int| 0 <= j < i ==> id@[j] == 0,
        decreases 16 - i,
    {
        if id[i] != 0 {
            assert(id@[i as int] != 0);
            return false;
        }
        i += 1;
    }
    true
}

/// The identity that is all zero.
pub open spec fn no_id() -> [u8; 16] {
    array_16(Seq::new(16, |i: int| 0u8))
}

/// The hash that is all zero.
pub open spec fn no_hash() -> [u8; 32] {
    array_32(Seq::new(32, |i: int| 0u8))
}

/// The identity that is all zero.
pub fn nothing_16() -> (id: [u8; 16])
    ensures
        id == no_id(),
        zero_16(id),
{
    let zero: [u8; 16] = [0u8; 16];
    let id = copy_16(zero.as_slice());
    assert(zero@.take(16) =~= zero@);
    assert(zero@ =~= Seq::new(16, |i: int| 0u8));
    id
}

/// The hash that is all zero.
pub fn nothing_32() -> (hash: [u8; 32])
    ensures
        hash == no_hash(),
        forall|i: int| 0 <= i < 32 ==> #[trigger] hash@[i] == 0,
{
    let zero: [u8; 32] = [0u8; 32];
    let hash = copy_32(zero.as_slice());
    assert(zero@.take(32) =~= zero@);
    assert(zero@ =~= Seq::new(32, |i: int| 0u8));
    hash
}

} // verus!
