use ledger_cache::account::{Account, ArbitraryData, Metadata, Status, Token, TokenDelta};
use ledger_cache::addr_map::AddrMap;
use ledger_cache::address::{AccountHash, Address};
use ledger_cache::transaction::{Transaction, TransactionType};
use ledger_cache::u256::U256;

fn addr(n: u8) -> Address {
    Address::new([n; 20])
}

fn token(pid: u8, owner: u8, balance: u64) -> Token {
    Token {
        program_id: addr(pid),
        owner_id: addr(owner),
        balance: U256::from_u64(balance),
        metadata: Metadata::new(Vec::new()),
        token_ids: Vec::new(),
        allowance: AddrMap::new(),
        approvals: AddrMap::new(),
        data: ArbitraryData::new(),
        status: Status::Free,
    }
}

fn account_with(pid: u8, balance: u64) -> Account {
    let mut account = Account::new(addr(1), None);
    account.insert_program(&addr(pid), token(pid, 1, balance));
    account
}

#[test]
fn new_account_is_empty() {
    let account = Account::new(addr(9), None);
    assert_eq!(account.address(), addr(9));
    assert!(account.nonce().is_zero());
    assert!(account.balance(&addr(2)).equals(&U256::zero()));
}

#[test]
fn new_account_takes_provided_programs() {
    let mut programs: AddrMap<Token> = AddrMap::new();
    programs.insert(addr(3), token(3, 1, 42));
    let account = Account::new(addr(1), Some(programs));
    assert!(account.balance(&addr(3)).equals(&U256::from_u64(42)));
}

#[test]
fn balance_of_missing_program_is_zero() {
    let account = account_with(2, 10);
    assert!(account.balance(&addr(4)).equals(&U256::zero()));
}

#[test]
fn validate_program_id_requires_entry() {
    let account = account_with(2, 10);
    assert!(account.validate_program_id(&addr(2)).is_ok());
    assert!(account.validate_program_id(&addr(3)).is_err());
}

#[test]
fn overdraft_is_rejected_and_balance_unchanged() {
    let account = account_with(2, 10);
    assert!(account.validate_balance(&addr(2), U256::from_u64(11)).is_err());
    assert!(account.balance(&addr(2)).equals(&U256::from_u64(10)));
}

#[test]
fn validate_balance_accepts_covered_amount() {
    let account = account_with(2, 10);
    assert!(account.validate_balance(&addr(2), U256::from_u64(10)).is_ok());
    assert!(account.validate_balance(&addr(2), U256::from_u64(2)).is_ok());
    assert!(account.validate_balance(&addr(3), U256::zero()).is_err());
}

#[test]
fn delta_application_updates_balance() {
    let mut account = account_with(2, 10);
    let delta = TokenDelta::new(token(2, 1, 0), U256::from_u64(2), U256::from_u64(5));
    assert!(account.validate_balance(&addr(2), *delta.send()).is_ok());
    account.update_programs(&addr(2), delta);
    assert!(account.balance(&addr(2)).equals(&U256::from_u64(13)));
}

#[test]
fn delta_for_unknown_program_inserts_its_token() {
    let mut account = Account::new(addr(1), None);
    let delta = TokenDelta::new(token(5, 1, 7), U256::zero(), U256::zero());
    account.update_programs(&addr(5), delta);
    assert!(account.balance(&addr(5)).equals(&U256::from_u64(7)));
}

#[test]
fn update_balance_receives_then_sends() {
    let mut t = token(2, 1, 10);
    t.update_balance(U256::from_u64(5), U256::from_u64(2));
    assert!(t.balance().equals(&U256::from_u64(13)));
}

#[test]
fn apply_send_transaction_rejects_non_send() {
    let mut account = account_with(2, 10);
    let bridge_in = Transaction::default();
    assert!(account.apply_send_transaction(bridge_in).is_err());
    let mut send = Transaction::default();
    send.transaction_type = TransactionType::Send(U256::zero());
    assert!(account.apply_send_transaction(send).is_ok());
}

#[test]
fn token_delta_exposes_its_parts() {
    let t = token(2, 1, 10);
    let delta = TokenDelta::new(t.clone(), U256::from_u64(1), U256::from_u64(4));
    assert_eq!(delta.program_id(), addr(2));
    assert_eq!(delta.token(), &t);
    assert!(delta.send().equals(&U256::from_u64(1)));
    assert!(delta.receive().equals(&U256::from_u64(4)));
}

#[test]
fn metadata_and_data_hold_their_bytes() {
    let m = Metadata::new(vec![1, 2, 3]);
    assert_eq!(m.bytes(), &vec![1, 2, 3]);
    let d = ArbitraryData::new();
    assert!(d.bytes().is_empty());
}

#[test]
fn account_hash_holds_its_bytes() {
    let h = AccountHash::new([7; 32]);
    assert_eq!(h, AccountHash([7; 32]));
}

#[test]
fn address_equality_is_bytewise() {
    let a = Address::new([1; 20]);
    let b = Address::new([1; 20]);
    let c = Address::new([2; 20]);
    assert!(a.same_as(&b));
    assert!(!a.same_as(&c));
    assert_eq!(a.bytes(), [1; 20]);
}
