//! Transactions, payloads and their canonical byte encoding: the stringified
//! type tag, the three 20-byte addresses, the UTF-8 input string and the
//! little-endian limbs of the 256-bit value, concatenated in that order. The
//! encoding is the pre-image of the content hash, so any change to it is a
//! breaking protocol change.

use vstd::prelude::*;
use vstd::slice::slice_to_vec;
use vstd::string::{StrSliceExecFns, StringExecFns};
use vstd::utf8::encode_utf8;
use crate::address::Address;
use crate::hashing::{hex_string, sha3_256, sha3_256_of, spec_hex};
use crate::u256::{spec_decimal, U256};

verus! {

/// The intent of a transaction, with its associated amount.
#[derive(Clone, Copy, Debug, PartialEq, Eq)]
pub enum TransactionType {
    BridgeIn(U256),
    Send(U256),
    Call(U256),
    BridgeOut(U256),
    Deploy(U256),
}

/// The stringified type tag that opens the canonical encoding: the variant's
/// name followed by its amount in decimal. Every variant carries its amount,
/// so the tag — and with it the signed pre-image — reflects a change to any
/// transaction type value.
pub open spec fn spec_type_tag(t: TransactionType) -> Seq<char> {
    match t {
        TransactionType::BridgeIn(n) => "bridgeIn"@ + spec_decimal(n.as_nat()),
        TransactionType::Send(n) => "send"@ + spec_decimal(n.as_nat()),
        TransactionType::Call(n) => "call"@ + spec_decimal(n.as_nat()),
        TransactionType::BridgeOut(n) => "bridgeOut"@ + spec_decimal(n.as_nat()),
        TransactionType::Deploy(n) => "deploy"@ + spec_decimal(n.as_nat()),
    }
}

impl TransactionType {
    pub fn is_send(&self) -> (r: bool)
        ensures
            r == (self is Send),
    {
        match self {
            TransactionType::Send(_) => true,
            _ => false,
        }
    }

    pub fn is_bridge_in(&self) -> (r: bool)
        ensures
            r == (self is BridgeIn),
    {
        match self {
            TransactionType::BridgeIn(_) => true,
            _ => false,
        }
    }

    pub fn is_call(&self) -> (r: bool)
        ensures
            r == (self is Call),
    {
        match self {
            TransactionType::Call(_) => true,
            _ => false,
        }
    }

    pub fn is_bridge_out(&self) -> (r: bool)
        ensures
            r == (self is BridgeOut),
    {
        match self {
            TransactionType::BridgeOut(_) => true,
            _ => false,
        }
    }

    pub fn is_deploy(&self) -> (r: bool)
        ensures
            r == (self is Deploy),
    {
        match self {
            TransactionType::Deploy(_) => true,
            _ => false,
        }
    }

    /// Renders the type tag.
    pub fn to_string(&self) -> (s: String)
        ensures
            s@ == spec_type_tag(*self),
    {
        match self {
            TransactionType::BridgeIn(n) => {
                let mut s = String::from_str("bridgeIn");
                let d = n.to_decimal_string();
                s.append(d.as_str());
                s
            },
            TransactionType::Send(n) => {
                let mut s = String::from_str("send");
                let d = n.to_decimal_string();
                s.append(d.as_str());
                s
            },
            TransactionType::Call(n) => {
                let mut s = String::from_str("call");
                let d = n.to_decimal_string();
                s.append(d.as_str());
                s
            },
            TransactionType::BridgeOut(n) => {
                let mut s = String::from_str("bridgeOut");
                let d = n.to_decimal_string();
                s.append(d.as_str());
                s
            },
            TransactionType::Deploy(n) => {
                let mut s = String::from_str("deploy");
                let d = n.to_decimal_string();
                s.append(d.as_str());
                s
            },
        }
    }
}

/// An unsigned instruction: the fields that are hashed and signed.
#[derive(Clone, Debug, PartialEq, Eq)]
pub struct Payload {
    pub transaction_type: TransactionType,
    pub from: [u8; 20],
    pub to: [u8; 20],
    pub program_id: [u8; 20],
    pub inputs: String,
    pub value: U256,
}

/// The canonical bytes of an unsigned instruction's fields.
pub open spec fn spec_encoding(
    transaction_type: TransactionType,
    from: Seq<u8>,
    to: Seq<u8>,
    program_id: Seq<u8>,
    inputs: Seq<char>,
    value: U256,
) -> Seq<u8> {
    encode_utf8(spec_type_tag(transaction_type)) + from + to + program_id + encode_utf8(inputs)
        + value.spec_le_bytes()
}

impl Payload {
    pub open spec fn spec_bytes(self) -> Seq<u8> {
        spec_encoding(
            self.transaction_type,
            self.from@,
            self.to@,
            self.program_id@,
            self.inputs@,
            self.value,
        )
    }

    /// The canonical encoding of the payload.
    pub fn as_bytes(&self) -> (r: Vec<u8>)
        ensures
            r@ == self.spec_bytes(),
    {
        let tag = self.transaction_type.to_string();
        let mut bytes: Vec<u8> = tag.as_str().as_bytes_vec();
        let mut part = slice_to_vec(self.from.as_slice());
        bytes.append(&mut part);
        let mut part = slice_to_vec(self.to.as_slice());
        bytes.append(&mut part);
        let mut part = slice_to_vec(self.program_id.as_slice());
        bytes.append(&mut part);
        let mut part = self.inputs.as_str().as_bytes_vec();
        bytes.append(&mut part);
        let mut part = self.value.le_bytes();
        bytes.append(&mut part);
        proof {
            assert(bytes@ =~= self.spec_bytes());
        }
        bytes
    }

    /// The SHA3-256 content hash of the canonical encoding.
    pub fn hash(&self) -> (r: Vec<u8>)
        ensures
            r@ == sha3_256_of(self.spec_bytes()),
            r@.len() == 32,
    {
        let bytes = self.as_bytes();
        sha3_256(bytes.as_slice())
    }

    /// The content hash, rendered as `0x` followed by lowercase hex digits.
    pub fn hash_string(&self) -> (s: String)
        ensures
            s@ == "0x"@ + spec_hex(sha3_256_of(self.spec_bytes())),
    {
        let digest = self.hash();
        let mut s = String::from_str("0x");
        let h = hex_string(digest.as_slice());
        s.append(h.as_str());
        s
    }
}

/// A signed instruction: the payload fields plus the recoverable signature
/// components `v`, `r` and `s`.
#[derive(Clone, Debug, PartialEq, Eq)]
pub struct Transaction {
    pub transaction_type: TransactionType,
    pub from: [u8; 20],
    pub to: [u8; 20],
    pub program_id: [u8; 20],
    pub inputs: String,
    pub value: U256,
    pub v: i32,
    pub r: [u8; 32],
    pub s: [u8; 32],
}

impl Transaction {
    pub open spec fn spec_bytes(self) -> Seq<u8> {
        spec_encoding(
            self.transaction_type,
            self.from@,
            self.to@,
            self.program_id@,
            self.inputs@,
            self.value,
        )
    }

    pub fn program_id(&self) -> (a: Address)
        ensures
            a@ == self.program_id@,
    {
        Address::new(self.program_id)
    }

    pub fn from(&self) -> (a: Address)
        ensures
            a@ == self.from@,
    {
        Address::new(self.from)
    }

    pub fn to(&self) -> (a: Address)
        ensures
            a@ == self.to@,
    {
        Address::new(self.to)
    }

    pub fn transaction_type(&self) -> (t: TransactionType)
        ensures
            t == self.transaction_type,
    {
        self.transaction_type
    }

    pub fn inputs(&self) -> (s: String)
        ensures
            s@ == self.inputs@,
    {
        self.inputs.clone()
    }

    pub fn value(&self) -> (v: U256)
        ensures
            v == self.value,
    {
        self.value
    }

    /// The canonical encoding, rendered as lowercase hex digits: the message
    /// that is signed.
    pub fn message(&self) -> (s: String)
        ensures
            s@ == spec_hex(self.spec_bytes()),
    {
        let bytes = self.as_bytes();
        hex_string(bytes.as_slice())
    }

    /// The canonical encoding of the transaction's payload fields; the
    /// signature components are not part of it.
    pub fn as_bytes(&self) -> (r: Vec<u8>)
        ensures
            r@ == self.spec_bytes(),
    {
        let tag = self.transaction_type.to_string();
        let mut bytes: Vec<u8> = tag.as_str().as_bytes_vec();
        let mut part = slice_to_vec(self.from.as_slice());
        bytes.append(&mut part);
        let mut part = slice_to_vec(self.to.as_slice());
        bytes.append(&mut part);
        let mut part = slice_to_vec(self.program_id.as_slice());
        bytes.append(&mut part);
        let mut part = self.inputs.as_str().as_bytes_vec();
        bytes.append(&mut part);
        let mut part = self.value.le_bytes();
        bytes.append(&mut part);
        proof {
            assert(bytes@ =~= self.spec_bytes());
        }
        bytes
    }

    /// The SHA3-256 content hash of the canonical encoding.
    pub fn hash(&self) -> (r: Vec<u8>)
        ensures
            r@ == sha3_256_of(self.spec_bytes()),
            r@.len() == 32,
    {
        let bytes = self.as_bytes();
        sha3_256(bytes.as_slice())
    }

    /// The content hash, rendered as `0x` followed by lowercase hex digits.
    pub fn hash_string(&self) -> (s: String)
        ensures
            s@ == "0x"@ + spec_hex(sha3_256_of(self.spec_bytes())),
    {
        let digest = self.hash();
        let mut s = String::from_str("0x");
        let h = hex_string(digest.as_slice());
        s.append(h.as_str());
        s
    }
}

/// All-zero bytes, the default for addresses and signature components.
pub open spec fn zero_bytes(n: nat) -> Seq<u8> {
    Seq::new(n, |i: int| 0u8)
}

impl Default for Transaction {
    /// The zero transaction: a bridge-in of amount zero between all-zero
    /// addresses, with empty inputs and a zero signature.
    fn default() -> (t: Transaction)
        ensures
            t.transaction_type is BridgeIn,
            spec_type_tag(t.transaction_type) == spec_type_tag(
                TransactionType::BridgeIn(t.value),
            ),
            t.from@ == zero_bytes(20),
            t.to@ == zero_bytes(20),
            t.program_id@ == zero_bytes(20),
            t.inputs@ == Seq::<char>::empty(),
            t.value.as_nat() == 0,
            t.v == 0,
            t.r@ == zero_bytes(32),
            t.s@ == zero_bytes(32),
    {
        let t = Transaction {
            transaction_type: TransactionType::BridgeIn(U256::zero()),
            from: [0; 20],
            to: [0; 20],
            program_id: [0; 20],
            inputs: String::new(),
            value: U256::zero(),
            v: 0,
            r: [0; 32],
            s: [0; 32],
        };
        proof {
            assert(t.from@ =~= zero_bytes(20));
            assert(t.to@ =~= zero_bytes(20));
            assert(t.program_id@ =~= zero_bytes(20));
            assert(t.r@ =~= zero_bytes(32));
            assert(t.s@ =~= zero_bytes(32));
        }
        t
    }
}

proof fn lemma_concat_cancel<A>(x1: Seq<A>, y1: Seq<A>, x2: Seq<A>, y2: Seq<A>)
    requires
        x1 + y1 == x2 + y2,
        x1.len() == x2.len(),
    ensures
        x1 == x2,
        y1 == y2,
{
    assert((x1 + y1).len() == (x2 + y2).len());
    assert forall|i: int| 0 <= i < x1.len() implies x1[i] == x2[i] by {
        assert((x1 + y1)[i] == x1[i]);
        assert((x2 + y2)[i] == x2[i]);
        assert((x1 + y1)[i] == (x2 + y2)[i]);
    }
    assert(x1 =~= x2);
    assert((x1 + y1).len() == x1.len() + y1.len());
    assert((x2 + y2).len() == x2.len() + y2.len());
    assert(y1.len() == y2.len());
    assert forall|i: int| 0 <= i < y1.len() implies y1[i] == y2[i] by {
        assert((x1 + y1)[x1.len() + i] == y1[i]);
        assert((x2 + y2)[x2.len() + i] == y2[i]);
        assert((x1 + y1)[x1.len() + i] == (x2 + y2)[x2.len() + i]);
    }
    assert(y1 =~= y2);
}

/// Equal little-endian value encodings come from equal values.
proof fn lemma_value_bytes_injective(v1: U256, v2: U256)
    requires
        v1.spec_le_bytes() == v2.spec_le_bytes(),
    ensures
        v1.as_nat() == v2.as_nat(),
{
    vstd::bytes::lemma_auto_spec_u64_to_from_le_bytes();
    let a0 = vstd::bytes::spec_u64_to_le_bytes(v1.0@[0]);
    let a1 = vstd::bytes::spec_u64_to_le_bytes(v1.0@[1]);
    let a2 = vstd::bytes::spec_u64_to_le_bytes(v1.0@[2]);
    let a3 = vstd::bytes::spec_u64_to_le_bytes(v1.0@[3]);
    let b0 = vstd::bytes::spec_u64_to_le_bytes(v2.0@[0]);
    let b1 = vstd::bytes::spec_u64_to_le_bytes(v2.0@[1]);
    let b2 = vstd::bytes::spec_u64_to_le_bytes(v2.0@[2]);
    let b3 = vstd::bytes::spec_u64_to_le_bytes(v2.0@[3]);
    lemma_concat_cancel(a0 + a1 + a2, a3, b0 + b1 + b2, b3);
    lemma_concat_cancel(a0 + a1, a2, b0 + b1, b2);
    lemma_concat_cancel(a0, a1, b0, b1);
    assert(v1.0@[0] == v2.0@[0] && v1.0@[1] == v2.0@[1] && v1.0@[2] == v2.0@[2] && v1.0@[3]
        == v2.0@[3]);
}

/// A tag literal followed by an amount pins the amount.
proof fn lemma_tag_amount_injective(lit: Seq<char>, n1: U256, n2: U256)
    requires
        lit + spec_decimal(n1.as_nat()) == lit + spec_decimal(n2.as_nat()),
    ensures
        n1 == n2,
{
    lemma_concat_cancel(lit, spec_decimal(n1.as_nat()), lit, spec_decimal(n2.as_nat()));
    crate::u256::lemma_spec_decimal_injective(n1.as_nat(), n2.as_nat());
    crate::u256::lemma_limbs_unique(n1, n2);
    assert(n1.0 =~= n2.0);
}

/// Type tags are unique: distinct transaction types render distinct tags.
proof fn lemma_type_tag_injective(a: TransactionType, b: TransactionType)
    requires
        spec_type_tag(a) == spec_type_tag(b),
    ensures
        a == b,
{
    reveal_strlit("bridgeIn");
    reveal_strlit("send");
    reveal_strlit("call");
    reveal_strlit("bridgeOut");
    reveal_strlit("deploy");
    // Distinct variants differ inside the literal prefix; within a variant
    // the appended decimal amount decides.
    match (a, b) {
        (TransactionType::BridgeIn(n1), TransactionType::BridgeIn(n2)) => {
            lemma_tag_amount_injective("bridgeIn"@, n1, n2);
        },
        (TransactionType::Send(n1), TransactionType::Send(n2)) => {
            lemma_tag_amount_injective("send"@, n1, n2);
        },
        (TransactionType::Call(n1), TransactionType::Call(n2)) => {
            lemma_tag_amount_injective("call"@, n1, n2);
        },
        (TransactionType::BridgeOut(n1), TransactionType::BridgeOut(n2)) => {
            lemma_tag_amount_injective("bridgeOut"@, n1, n2);
        },
        (TransactionType::Deploy(n1), TransactionType::Deploy(n2)) => {
            lemma_tag_amount_injective("deploy"@, n1, n2);
        },
        (TransactionType::BridgeIn(n1), TransactionType::Send(n2)) => {
            assert(("bridgeIn"@ + spec_decimal(n1.as_nat()))[0] == 'b');
            assert(("send"@ + spec_decimal(n2.as_nat()))[0] == 's');
        },
        (TransactionType::BridgeIn(n1), TransactionType::Call(n2)) => {
            assert(("bridgeIn"@ + spec_decimal(n1.as_nat()))[0] == 'b');
            assert(("call"@ + spec_decimal(n2.as_nat()))[0] == 'c');
        },
        (TransactionType::BridgeIn(n1), TransactionType::BridgeOut(n2)) => {
            assert(("bridgeIn"@ + spec_decimal(n1.as_nat()))[6] == 'I');
            assert(("bridgeOut"@ + spec_decimal(n2.as_nat()))[6] == 'O');
        },
        (TransactionType::BridgeIn(n1), TransactionType::Deploy(n2)) => {
            assert(("bridgeIn"@ + spec_decimal(n1.as_nat()))[0] == 'b');
            assert(("deploy"@ + spec_decimal(n2.as_nat()))[0] == 'd');
        },
        (TransactionType::Send(n1), TransactionType::BridgeIn(n2)) => {
            assert(("send"@ + spec_decimal(n1.as_nat()))[0] == 's');
            assert(("bridgeIn"@ + spec_decimal(n2.as_nat()))[0] == 'b');
        },
        (TransactionType::Send(n1), TransactionType::Call(n2)) => {
            assert(("send"@ + spec_decimal(n1.as_nat()))[0] == 's');
            assert(("call"@ + spec_decimal(n2.as_nat()))[0] == 'c');
        },
        (TransactionType::Send(n1), TransactionType::BridgeOut(n2)) => {
            assert(("send"@ + spec_decimal(n1.as_nat()))[0] == 's');
            assert(("bridgeOut"@ + spec_decimal(n2.as_nat()))[0] == 'b');
        },
        (TransactionType::Send(n1), TransactionType::Deploy(n2)) => {
            assert(("send"@ + spec_decimal(n1.as_nat()))[0] == 's');
            assert(("deploy"@ + spec_decimal(n2.as_nat()))[0] == 'd');
        },
        (TransactionType::Call(n1), TransactionType::BridgeIn(n2)) => {
            assert(("call"@ + spec_decimal(n1.as_nat()))[0] == 'c');
            assert(("bridgeIn"@ + spec_decimal(n2.as_nat()))[0] == 'b');
        },
        (TransactionType::Call(n1), TransactionType::Send(n2)) => {
            assert(("call"@ + spec_decimal(n1.as_nat()))[0] == 'c');
            assert(("send"@ + spec_decimal(n2.as_nat()))[0] == 's');
        },
        (TransactionType::Call(n1), TransactionType::BridgeOut(n2)) => {
            assert(("call"@ + spec_decimal(n1.as_nat()))[0] == 'c');
            assert(("bridgeOut"@ + spec_decimal(n2.as_nat()))[0] == 'b');
        },
        (TransactionType::Call(n1), TransactionType::Deploy(n2)) => {
            assert(("call"@ + spec_decimal(n1.as_nat()))[0] == 'c');
            assert(("deploy"@ + spec_decimal(n2.as_nat()))[0] == 'd');
        },
        (TransactionType::BridgeOut(n1), TransactionType::BridgeIn(n2)) => {
            assert(("bridgeOut"@ + spec_decimal(n1.as_nat()))[6] == 'O');
            assert(("bridgeIn"@ + spec_decimal(n2.as_nat()))[6] == 'I');
        },
        (TransactionType::BridgeOut(n1), TransactionType::Send(n2)) => {
            assert(("bridgeOut"@ + spec_decimal(n1.as_nat()))[0] == 'b');
            assert(("send"@ + spec_decimal(n2.as_nat()))[0] == 's');
        },
        (TransactionType::BridgeOut(n1), TransactionType::Call(n2)) => {
            assert(("bridgeOut"@ + spec_decimal(n1.as_nat()))[0] == 'b');
            assert(("call"@ + spec_decimal(n2.as_nat()))[0] == 'c');
        },
        (TransactionType::BridgeOut(n1), TransactionType::Deploy(n2)) => {
            assert(("bridgeOut"@ + spec_decimal(n1.as_nat()))[0] == 'b');
            assert(("deploy"@ + spec_decimal(n2.as_nat()))[0] == 'd');
        },
        (TransactionType::Deploy(n1), TransactionType::BridgeIn(n2)) => {
            assert(("deploy"@ + spec_decimal(n1.as_nat()))[0] == 'd');
            assert(("bridgeIn"@ + spec_decimal(n2.as_nat()))[0] == 'b');
        },
        (TransactionType::Deploy(n1), TransactionType::Send(n2)) => {
            assert(("deploy"@ + spec_decimal(n1.as_nat()))[0] == 'd');
            assert(("send"@ + spec_decimal(n2.as_nat()))[0] == 's');
        },
        (TransactionType::Deploy(n1), TransactionType::Call(n2)) => {
            assert(("deploy"@ + spec_decimal(n1.as_nat()))[0] == 'd');
            assert(("call"@ + spec_decimal(n2.as_nat()))[0] == 'c');
        },
        (TransactionType::Deploy(n1), TransactionType::BridgeOut(n2)) => {
            assert(("deploy"@ + spec_decimal(n1.as_nat()))[0] == 'd');
            assert(("bridgeOut"@ + spec_decimal(n2.as_nat()))[0] == 'b');
        },
    }
}

/// The canonical encoding determines the encoded fields: byte-for-byte
/// equal encodings come from equal fields, provided the two variable-length
/// segments cannot shift against each other (the types or the inputs
/// agree).
pub proof fn lemma_encoding_determines_fields(
    ty1: TransactionType,
    from1: Seq<u8>,
    to1: Seq<u8>,
    pid1: Seq<u8>,
    inputs1: Seq<char>,
    value1: U256,
    ty2: TransactionType,
    from2: Seq<u8>,
    to2: Seq<u8>,
    pid2: Seq<u8>,
    inputs2: Seq<char>,
    value2: U256,
)
    requires
        spec_encoding(ty1, from1, to1, pid1, inputs1, value1) == spec_encoding(
            ty2,
            from2,
            to2,
            pid2,
            inputs2,
            value2,
        ),
        from1.len() == 20 && to1.len() == 20 && pid1.len() == 20,
        from2.len() == 20 && to2.len() == 20 && pid2.len() == 20,
        ty1 == ty2 || inputs1 == inputs2,
    ensures
        ty1 == ty2,
        from1 == from2,
        to1 == to2,
        pid1 == pid2,
        inputs1 == inputs2,
        value1.as_nat() == value2.as_nat(),
{
    vstd::bytes::lemma_auto_spec_u64_to_from_le_bytes();
    let e1 = encode_utf8(spec_type_tag(ty1));
    let e2 = encode_utf8(spec_type_tag(ty2));
    let u1 = encode_utf8(inputs1);
    let u2 = encode_utf8(inputs2);
    let lv1 = value1.spec_le_bytes();
    let lv2 = value2.spec_le_bytes();
    assert(lv1.len() == 32 && lv2.len() == 32);
    let x1 = e1 + from1 + to1 + pid1 + u1;
    let x2 = e2 + from2 + to2 + pid2 + u2;
    assert(x1 + lv1 == x2 + lv2);
    assert((x1 + lv1).len() == x1.len() + lv1.len());
    assert((x2 + lv2).len() == x2.len() + lv2.len());
    lemma_concat_cancel(x1, lv1, x2, lv2);
    let y1 = e1 + from1 + to1 + pid1;
    let y2 = e2 + from2 + to2 + pid2;
    assert(x1.len() == y1.len() + u1.len());
    assert(x2.len() == y2.len() + u2.len());
    let z1 = e1 + from1 + to1;
    let z2 = e2 + from2 + to2;
    assert(y1.len() == z1.len() + pid1.len());
    assert(y2.len() == z2.len() + pid2.len());
    assert(z1.len() == (e1 + from1).len() + to1.len());
    assert(z2.len() == (e2 + from2).len() + to2.len());
    assert((e1 + from1).len() == e1.len() + from1.len());
    assert((e2 + from2).len() == e2.len() + from2.len());
    if ty1 == ty2 {
        assert(e1 == e2);
    } else {
        assert(u1 == u2);
    }
    assert(y1.len() == y2.len());
    lemma_concat_cancel(y1, u1, y2, u2);
    lemma_concat_cancel(z1, pid1, z2, pid2);
    lemma_concat_cancel(e1 + from1, to1, e2 + from2, to2);
    lemma_concat_cancel(e1, from1, e2, from2);
    vstd::utf8::encode_utf8_decode_utf8(spec_type_tag(ty1));
    vstd::utf8::encode_utf8_decode_utf8(spec_type_tag(ty2));
    lemma_type_tag_injective(ty1, ty2);
    vstd::utf8::encode_utf8_decode_utf8(inputs1);
    vstd::utf8::encode_utf8_decode_utf8(inputs2);
    lemma_value_bytes_injective(value1, value2);
}

/// Sensitivity of the signed pre-image: two transactions that agree on the
/// transaction type or on the inputs, yet differ in any encoded field,
/// encode to different canonical bytes — in particular, changing any single
/// encoded field changes the bytes, so the content hashes are hashes of
/// different pre-images.
pub proof fn lemma_encoding_sensitive(t1: Transaction, t2: Transaction)
    requires
        t1.transaction_type == t2.transaction_type || t1.inputs@ == t2.inputs@,
        t1.transaction_type != t2.transaction_type || t1.from@ != t2.from@ || t1.to@ != t2.to@
            || t1.program_id@ != t2.program_id@ || t1.inputs@ != t2.inputs@
            || t1.value.as_nat() != t2.value.as_nat(),
    ensures
        t1.spec_bytes() != t2.spec_bytes(),
{
    if t1.spec_bytes() == t2.spec_bytes() {
        lemma_encoding_determines_fields(
            t1.transaction_type,
            t1.from@,
            t1.to@,
            t1.program_id@,
            t1.inputs@,
            t1.value,
            t2.transaction_type,
            t2.from@,
            t2.to@,
            t2.program_id@,
            t2.inputs@,
            t2.value,
        );
    }
}

/// Encoding is a function of the field values alone: two transactions whose
/// fields agree encode to the same bytes, so their content hashes agree.
pub proof fn lemma_encoding_deterministic(t1: Transaction, t2: Transaction)
    requires
        t1.transaction_type == t2.transaction_type,
        t1.from@ == t2.from@,
        t1.to@ == t2.to@,
        t1.program_id@ == t2.program_id@,
        t1.inputs@ == t2.inputs@,
        t1.value.as_nat() == t2.value.as_nat(),
    ensures
        t1.spec_bytes() == t2.spec_bytes(),
        sha3_256_of(t1.spec_bytes()) == sha3_256_of(t2.spec_bytes()),
{
    crate::u256::lemma_limbs_unique(t1.value, t2.value);
    assert(t1.value.spec_le_bytes() == t2.value.spec_le_bytes());
}

} // verus!
