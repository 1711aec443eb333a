//! The 20-byte address and 32-byte account-hash identifiers.

use vstd::prelude::*;
use vstd::slice::slice_subrange;
use crate::hashing::{keccak256, keccak256_of, serialize_uncompressed};

verus! {

/// A 20-byte account or program identifier, derived from a public key by
/// Keccak-256 hashing and truncation, or opaque for system addresses.
#[derive(Clone, Copy, Debug, PartialEq, Eq, PartialOrd, Ord, Hash)]
pub struct Address(pub [u8; 20]);

impl View for Address {
    type V = Seq<u8>;

    open spec fn view(&self) -> Seq<u8> {
        self.0@
    }
}

impl Address {
    pub fn new(bytes: [u8; 20]) -> (a: Address)
        ensures
            a@ == bytes@,
    {
        Address(bytes)
    }

    /// The raw 20 bytes of the address.
    pub fn bytes(&self) -> (b: [u8; 20])
        ensures
            b@ == self@,
    {
        self.0
    }

    /// Byte-for-byte equality of two addresses.
    pub fn same_as(&self, other: &Address) -> (r: bool)
        ensures
            r <==> self@ == other@,
    {
        let mut i: usize = 0;
        while i < 20
            invariant
                i <= 20,
                forall|j: int| 0 <= j < i ==> self@[j] == other@[j],
            decreases 20 - i,
        {
            if self.0[i] != other.0[i] {
                return false;
            }
            i += 1;
        }
        proof {
            assert(self@ =~= other@);
        }
        true
    }
}

impl Address {
    /// Derives an address from an uncompressed SEC1 public-key encoding: the
    /// last 20 bytes of the Keccak-256 digest of the encoding without its
    /// leading tag byte.
    pub fn from_uncompressed_bytes(bytes: &[u8; 65]) -> (a: Address)
        ensures
            a@ == keccak256_of(bytes@.skip(1)).skip(12),
    {
        let tail = slice_subrange(bytes.as_slice(), 1, 65);
        proof {
            assert(tail@ =~= bytes@.skip(1));
        }
        let digest = keccak256(tail);
        let mut out: [u8; 20] = [0; 20];
        let mut i: usize = 0;
        while i < 20
            invariant
                i <= 20,
                digest@ == keccak256_of(bytes@.skip(1)),
                digest@.len() == 32,
                forall|j: int| 0 <= j < i ==> out@[j] == digest@[12 + j],
            decreases 20 - i,
        {
            out[i] = digest[12 + i];
            i += 1;
        }
        proof {
            assert(out@ =~= keccak256_of(bytes@.skip(1)).skip(12));
        }
        Address(out)
    }

    /// Derives the address owned by a secp256k1 public key: the key's
    /// uncompressed SEC1 encoding (65 bytes, tag byte 4) is hashed and
    /// truncated by [`Address::from_uncompressed_bytes`], which carries the
    /// exact byte-level rule. That the encoding is determined by the key is
    /// a fact about the serialization call at the trusted boundary; the
    /// contract here confines the result to a truncated digest of a 65-byte
    /// tag-4 encoding.
    pub fn from_public_key(pk: &secp256k1::PublicKey) -> (a: Address)
        ensures
            a@.len() == 20,
            exists|b: Seq<u8>|
                b.len() == 65 && b[0] == 4u8 && a@ == keccak256_of(b.skip(1)).skip(12),
    {
        let encoded = serialize_uncompressed(pk);
        let a = Address::from_uncompressed_bytes(&encoded);
        proof {
            assert(encoded@.len() == 65 && encoded@[0] == 4u8 && a@ == keccak256_of(
                encoded@.skip(1),
            ).skip(12));
        }
        a
    }
}

/// A 32-byte hash of an account's current state.
#[derive(Clone, Copy, Debug, PartialEq, Eq, PartialOrd, Ord, Hash)]
pub struct AccountHash(pub [u8; 32]);

impl View for AccountHash {
    type V = Seq<u8>;

    open spec fn view(&self) -> Seq<u8> {
        self.0@
    }
}

impl AccountHash {
    pub fn new(hash: [u8; 32]) -> (h: AccountHash)
        ensures
            h@ == hash@,
    {
        AccountHash(hash)
    }
}

} // verus!
