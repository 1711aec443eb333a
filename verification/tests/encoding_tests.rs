use ledger_cache::actor_types::ActorType;
use ledger_cache::address::Address;
use ledger_cache::hashing::hex_string;
use ledger_cache::transaction::{Payload, Transaction, TransactionType};
use ledger_cache::u256::U256;
use sha3::{Digest, Keccak256, Sha3_256};

fn sample_transaction() -> Transaction {
    Transaction {
        transaction_type: TransactionType::Send(U256::from_u64(5)),
        from: [1; 20],
        to: [2; 20],
        program_id: [3; 20],
        inputs: String::from("transfer"),
        value: U256::from_u64(77),
        v: 1,
        r: [4; 32],
        s: [5; 32],
    }
}

#[test]
fn type_tags_render_as_expected() {
    assert_eq!(TransactionType::Send(U256::from_u64(5)).to_string(), "send5");
    assert_eq!(TransactionType::BridgeIn(U256::zero()).to_string(), "bridgeIn0");
    assert_eq!(
        TransactionType::Call(U256::from_u64(12345678901234567890)).to_string(),
        "call12345678901234567890"
    );
    assert_eq!(TransactionType::BridgeOut(U256::from_u64(9)).to_string(), "bridgeOut9");
    assert_eq!(TransactionType::Deploy(U256::from_u64(9)).to_string(), "deploy9");
    assert!(TransactionType::Send(U256::zero()).is_send());
    assert!(TransactionType::BridgeIn(U256::zero()).is_bridge_in());
    assert!(TransactionType::Call(U256::zero()).is_call());
    assert!(TransactionType::BridgeOut(U256::zero()).is_bridge_out());
    assert!(TransactionType::Deploy(U256::zero()).is_deploy());
}

#[test]
fn decimal_rendering_handles_multi_limb_values() {
    assert_eq!(U256::zero().to_decimal_string(), "0");
    assert_eq!(U256::from_u64(u64::MAX).to_decimal_string(), "18446744073709551615");
    // One past the limb boundary: 2^64.
    assert_eq!(U256([0, 1, 0, 0]).to_decimal_string(), "18446744073709551616");
}

#[test]
fn u256_checked_arithmetic() {
    let max = U256([u64::MAX, u64::MAX, u64::MAX, u64::MAX]);
    assert!(max.checked_add(&U256::from_u64(1)).is_none());
    assert!(U256::from_u64(3).checked_sub(&U256::from_u64(4)).is_none());
    let sum = U256::from_u64(3).checked_add(&U256::from_u64(4)).unwrap();
    assert!(sum.equals(&U256::from_u64(7)));
    assert!(U256::from_u64(4).ge(&U256::from_u64(4)));
    assert!(!U256::from_u64(3).ge(&U256::from_u64(4)));
    // Carry across the limb boundary.
    let carry = U256([u64::MAX, 0, 0, 0]).checked_add(&U256::from_u64(1)).unwrap();
    assert!(carry.equals(&U256([0, 1, 0, 0])));
}

#[test]
fn value_bytes_are_little_endian_limbs() {
    let bytes = U256::from_u64(0x0102).le_bytes();
    let mut expected = vec![0u8; 32];
    expected[0] = 2;
    expected[1] = 1;
    assert_eq!(bytes, expected);
}

#[test]
fn encoding_concatenates_the_documented_fields() {
    let tx = sample_transaction();
    let mut expected: Vec<u8> = Vec::new();
    expected.extend_from_slice("send5".as_bytes());
    expected.extend_from_slice(&[1; 20]);
    expected.extend_from_slice(&[2; 20]);
    expected.extend_from_slice(&[3; 20]);
    expected.extend_from_slice("transfer".as_bytes());
    let mut value_bytes = vec![0u8; 32];
    value_bytes[0] = 77;
    expected.extend_from_slice(&value_bytes);
    assert_eq!(tx.as_bytes(), expected);

    let payload = Payload {
        transaction_type: tx.transaction_type,
        from: tx.from,
        to: tx.to,
        program_id: tx.program_id,
        inputs: tx.inputs.clone(),
        value: tx.value,
    };
    assert_eq!(payload.as_bytes(), expected);
}

#[test]
fn content_hash_matches_a_direct_digest() {
    let tx = sample_transaction();
    let direct: Vec<u8> = Sha3_256::digest(tx.as_bytes()).to_vec();
    assert_eq!(tx.hash(), direct);
    let payload = Payload {
        transaction_type: tx.transaction_type,
        from: tx.from,
        to: tx.to,
        program_id: tx.program_id,
        inputs: tx.inputs.clone(),
        value: tx.value,
    };
    assert_eq!(payload.hash(), direct);
    assert_eq!(payload.hash_string(), tx.hash_string());
}

#[test]
fn identical_fields_hash_identically_and_any_change_shows() {
    let tx = sample_transaction();
    let twin = sample_transaction();
    assert_eq!(tx.hash(), twin.hash());
    assert_eq!(tx.hash_string(), twin.hash_string());

    let mut changed = sample_transaction();
    changed.transaction_type = TransactionType::Call(U256::from_u64(5));
    assert_ne!(changed.hash(), tx.hash());
    let mut changed = sample_transaction();
    changed.from = [9; 20];
    assert_ne!(changed.hash(), tx.hash());
    let mut changed = sample_transaction();
    changed.to = [9; 20];
    assert_ne!(changed.hash(), tx.hash());
    let mut changed = sample_transaction();
    changed.program_id = [9; 20];
    assert_ne!(changed.hash(), tx.hash());
    let mut changed = sample_transaction();
    changed.inputs = String::from("transfer!");
    assert_ne!(changed.hash(), tx.hash());
    let mut changed = sample_transaction();
    changed.value = U256::from_u64(78);
    assert_ne!(changed.hash(), tx.hash());

    // The amount inside the type tag counts as a field of its own, for
    // every variant.
    let mut out_low = sample_transaction();
    out_low.transaction_type = TransactionType::BridgeOut(U256::from_u64(1));
    let mut out_high = sample_transaction();
    out_high.transaction_type = TransactionType::BridgeOut(U256::from_u64(2));
    assert_ne!(out_low.hash(), out_high.hash());
    let mut deploy_low = sample_transaction();
    deploy_low.transaction_type = TransactionType::Deploy(U256::from_u64(1));
    let mut deploy_high = sample_transaction();
    deploy_high.transaction_type = TransactionType::Deploy(U256::from_u64(2));
    assert_ne!(deploy_low.hash(), deploy_high.hash());
}

#[test]
fn hash_string_is_prefixed_lowercase_hex() {
    let s = sample_transaction().hash_string();
    assert_eq!(s.len(), 66);
    assert!(s.starts_with("0x"));
    assert!(s[2..].chars().all(|c| c.is_ascii_hexdigit() && !c.is_ascii_uppercase()));
}

#[test]
fn message_is_the_hex_of_the_encoding() {
    let tx = sample_transaction();
    let mut expected = String::new();
    for byte in tx.as_bytes() {
        expected.push_str(&format!("{:02x}", byte));
    }
    assert_eq!(tx.message(), expected);
}

#[test]
fn hex_string_renders_two_digits_per_byte() {
    assert_eq!(hex_string(&[0u8, 255, 16]), "00ff10");
    assert_eq!(hex_string(&[]), "");
}

#[test]
fn default_transaction_is_all_zero() {
    let t = Transaction::default();
    assert_eq!(t.transaction_type, TransactionType::BridgeIn(U256::zero()));
    assert_eq!(t.from, [0; 20]);
    assert_eq!(t.to, [0; 20]);
    assert_eq!(t.program_id, [0; 20]);
    assert_eq!(t.inputs, "");
    assert!(t.value.is_zero());
    assert_eq!(t.v, 0);
    assert_eq!(t.r, [0; 32]);
    assert_eq!(t.s, [0; 32]);
}

#[test]
fn transaction_getters_expose_the_fields() {
    let tx = sample_transaction();
    assert_eq!(tx.from(), Address::new([1; 20]));
    assert_eq!(tx.to(), Address::new([2; 20]));
    assert_eq!(tx.program_id(), Address::new([3; 20]));
    assert_eq!(tx.inputs(), "transfer");
    assert!(tx.value().equals(&U256::from_u64(77)));
    assert_eq!(tx.transaction_type(), TransactionType::Send(U256::from_u64(5)));
}

#[test]
fn actor_names_match_the_registry() {
    assert_eq!(ActorType::Registry.to_string(), "registry");
    assert_eq!(ActorType::RpcServer.to_string(), "rpc_server");
    assert_eq!(ActorType::Scheduler.to_string(), "scheduler");
    assert_eq!(ActorType::Validator.to_string(), "validator");
    assert_eq!(ActorType::Engine.to_string(), "engine");
    assert_eq!(ActorType::EoServer.to_string(), "eo_server");
    assert_eq!(ActorType::DaClient.to_string(), "da_client");
    assert_eq!(ActorType::AccountCache.to_string(), "account_cache");
    assert_eq!(ActorType::BlobCache.to_string(), "blob_cache");
    assert_eq!(ActorType::PendingTransactions.to_string(), "pending_transactions");
}

#[test]
fn address_derivation_matches_the_known_vector() {
    // The uncompressed secp256k1 generator point: the public key of the
    // secret key one. Its derived 20-byte address is a fixture documented in
    // many places.
    let mut pk_bytes = [0u8; 65];
    pk_bytes[0] = 0x04;
    let x = [
        0x79u8, 0xBE, 0x66, 0x7E, 0xF9, 0xDC, 0xBB, 0xAC, 0x55, 0xA0, 0x62, 0x95, 0xCE, 0x87,
        0x0B, 0x07, 0x02, 0x9B, 0xFC, 0xDB, 0x2D, 0xCE, 0x28, 0xD9, 0x59, 0xF2, 0x81, 0x5B,
        0x16, 0xF8, 0x17, 0x98,
    ];
    let y = [
        0x48u8, 0x3A, 0xDA, 0x77, 0x26, 0xA3, 0xC4, 0x65, 0x5D, 0xA4, 0xFB, 0xFC, 0x0E, 0x11,
        0x08, 0xA8, 0xFD, 0x17, 0xB4, 0x48, 0xA6, 0x85, 0x54, 0x19, 0x9C, 0x47, 0xD0, 0x8F,
        0xFB, 0x10, 0xD4, 0xB8,
    ];
    pk_bytes[1..33].copy_from_slice(&x);
    pk_bytes[33..65].copy_from_slice(&y);

    // Independent check of the truncated-Keccak rule.
    let digest = Keccak256::digest(&pk_bytes[1..]);
    let mut expected = [0u8; 20];
    expected.copy_from_slice(&digest[12..]);

    let derived = Address::from_uncompressed_bytes(&pk_bytes);
    assert_eq!(derived, Address::new(expected));
    assert_eq!(
        hex_string(&derived.bytes()),
        "7e5f4552091a69125d5dfcb7b8c2659029395bdf"
    );

    let pk = secp256k1::PublicKey::from_slice(&pk_bytes).unwrap();
    assert_eq!(Address::from_public_key(&pk), derived);
}
