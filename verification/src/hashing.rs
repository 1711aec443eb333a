//! Digest bindings and hexadecimal rendering. The SHA3-256 and Keccak-256
//! digests are computed by the `sha3` crate; their values are named but not
//! restated here. Hexadecimal rendering is the crate's own, verified.

use vstd::prelude::*;
use vstd::string::StringExecFns;
use sha3::Digest;

verus! {

/// The SHA3-256 digest of a byte sequence: a fixed function of the bytes
/// alone, left unspecified here.
pub uninterp spec fn sha3_256_of(bytes: Seq<u8>) -> Seq<u8>;

/// The Keccak-256 digest of a byte sequence: a fixed function of the bytes
/// alone, left unspecified here.
pub uninterp spec fn keccak256_of(bytes: Seq<u8>) -> Seq<u8>;

/// Relies on `sha3::Sha3_256` through `Digest::digest`: the digest is 32
/// bytes and depends on the input bytes alone.
#[verifier::external_body]
pub(crate) fn sha3_256(bytes: &[u8]) -> (r: Vec<u8>)
    ensures
        r@ == sha3_256_of(bytes@),
        r@.len() == 32,
{
    sha3::Sha3_256::digest(bytes).to_vec()
}

/// Relies on `sha3::Keccak256` through `Digest::digest`: the digest is 32
/// bytes and depends on the input bytes alone.
#[verifier::external_body]
pub(crate) fn keccak256(bytes: &[u8]) -> (r: Vec<u8>)
    ensures
        r@ == keccak256_of(bytes@),
        r@.len() == 32,
{
    sha3::Keccak256::digest(bytes).to_vec()
}

#[verifier::external_type_specification]
#[verifier::external_body]
pub struct ExPublicKey(secp256k1::PublicKey);

/// Relies on `secp256k1::PublicKey::serialize_uncompressed`: the SEC1
/// uncompressed encoding of the key, 65 bytes opening with the tag byte 4.
#[verifier::external_body]
pub(crate) fn serialize_uncompressed(pk: &secp256k1::PublicKey) -> (r: [u8; 65])
    ensures
        r@.len() == 65,
        r@[0] == 4u8,
{
    pk.serialize_uncompressed()
}

/// The lowercase hexadecimal digit for `d`.
pub open spec fn spec_hex_digit(d: nat) -> char {
    if d == 0 {
        '0'
    } else if d == 1 {
        '1'
    } else if d == 2 {
        '2'
    } else if d == 3 {
        '3'
    } else if d == 4 {
        '4'
    } else if d == 5 {
        '5'
    } else if d == 6 {
        '6'
    } else if d == 7 {
        '7'
    } else if d == 8 {
        '8'
    } else if d == 9 {
        '9'
    } else if d == 10 {
        'a'
    } else if d == 11 {
        'b'
    } else if d == 12 {
        'c'
    } else if d == 13 {
        'd'
    } else if d == 14 {
        'e'
    } else {
        'f'
    }
}

/// The two lowercase hexadecimal digits of one byte.
pub open spec fn spec_byte_hex(b: u8) -> Seq<char> {
    seq![spec_hex_digit(b as nat / 16), spec_hex_digit(b as nat % 16)]
}

/// The lowercase hexadecimal rendering of a byte sequence, two digits per
/// byte.
pub open spec fn spec_hex(bytes: Seq<u8>) -> Seq<char>
    decreases bytes.len(),
{
    if bytes.len() == 0 {
        Seq::empty()
    } else {
        spec_hex(bytes.drop_last()) + spec_byte_hex(bytes.last())
    }
}

fn hex_digit_str(d: u8) -> (s: &'static str)
    requires
        d < 16,
    ensures
        s@ == seq![spec_hex_digit(d as nat)],
{
    proof {
        reveal_strlit("0");
        reveal_strlit("1");
        reveal_strlit("2");
        reveal_strlit("3");
        reveal_strlit("4");
        reveal_strlit("5");
        reveal_strlit("6");
        reveal_strlit("7");
        reveal_strlit("8");
        reveal_strlit("9");
        reveal_strlit("a");
        reveal_strlit("b");
        reveal_strlit("c");
        reveal_strlit("d");
        reveal_strlit("e");
        reveal_strlit("f");
    }
    let r = match d {
        0 => "0",
        1 => "1",
        2 => "2",
        3 => "3",
        4 => "4",
        5 => "5",
        6 => "6",
        7 => "7",
        8 => "8",
        9 => "9",
        10 => "a",
        11 => "b",
        12 => "c",
        13 => "d",
        14 => "e",
        _ => "f",
    };
    proof {
        assert(r@ =~= seq![spec_hex_digit(d as nat)]);
    }
    r
}

/// Renders `bytes` as lowercase hexadecimal, two digits per byte.
pub fn hex_string(bytes: &[u8]) -> (s: String)
    ensures
        s@ == spec_hex(bytes@),
{
    let mut s = String::new();
    let n = bytes.len();
    let mut i: usize = 0;
    while i < n
        invariant
            i <= n,
            n == bytes@.len(),
            s@ == spec_hex(bytes@.take(i as int)),
        decreases n - i,
    {
        let b = bytes[i];
        s.append(hex_digit_str(b / 16));
        s.append(hex_digit_str(b % 16));
        i += 1;
        proof {
            assert(bytes@.take(i as int).drop_last() =~= bytes@.take(i - 1));
            assert(bytes@.take(i as int).last() == bytes@[i - 1]);
        }
    }
    proof {
        assert(bytes@.take(n as int) =~= bytes@);
    }
    s
}

} // verus!
