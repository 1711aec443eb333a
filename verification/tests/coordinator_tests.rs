use ledger_cache::account::{Account, ArbitraryData, Metadata, Status, Token};
use ledger_cache::addr_map::AddrMap;
use ledger_cache::address::Address;
use ledger_cache::cache::{
    AccountCache, BlobEvent, BlobOutcome, CacheEvent, CacheOutcome, PendingBlobCache,
    PendingEvent, PendingOutcome, PendingTokens, PendingTransactions,
};
use ledger_cache::messages::{BlobResponse, BlobVerificationProof, DaClientMessage, EoMessage};
use ledger_cache::u256::U256;

fn addr(n: u8) -> Address {
    Address::new([n; 20])
}

fn token(pid: u8) -> Token {
    Token {
        program_id: addr(pid),
        owner_id: addr(1),
        balance: U256::from_u64(10),
        metadata: Metadata::new(Vec::new()),
        token_ids: Vec::new(),
        allowance: AddrMap::new(),
        approvals: AddrMap::new(),
        data: ArbitraryData::new(),
        status: Status::Free,
    }
}

fn account(n: u8) -> Account {
    Account::new(addr(n), None)
}

#[test]
fn write_notifies_eo_with_fresh_signal() {
    let mut cache = AccountCache::new();
    let out = cache.step(CacheEvent::Write { account: account(2) });
    assert_eq!(
        out,
        CacheOutcome::Notified {
            message: EoMessage::AccountCached { address: addr(2), removal_signal: 0 }
        }
    );
    let out = cache.step(CacheEvent::Write { account: account(3) });
    assert_eq!(
        out,
        CacheOutcome::Notified {
            message: EoMessage::AccountCached { address: addr(3), removal_signal: 1 }
        }
    );
}

#[test]
fn writing_the_same_account_twice_changes_nothing() {
    let mut cache = AccountCache::new();
    cache.step(CacheEvent::Write { account: account(2) });
    let size_after_first = cache.cache.len();
    let seen_first = cache.handle_cache_check(&addr(2)).cloned();
    cache.step(CacheEvent::Write { account: account(2) });
    assert_eq!(cache.cache.len(), size_after_first);
    assert_eq!(cache.handle_cache_check(&addr(2)).cloned(), seen_first);
}

#[test]
fn entry_stays_resident_until_its_signal_resolves() {
    let mut cache = AccountCache::new();
    cache.step(CacheEvent::Write { account: account(2) });
    cache.step(CacheEvent::Write { account: account(3) });
    cache.step(CacheEvent::RemovalSignal { address: addr(3) });
    assert_eq!(cache.handle_cache_check(&addr(2)), Some(&account(2)));
    let out = cache.step(CacheEvent::RemovalSignal { address: addr(2) });
    assert_eq!(out, CacheOutcome::Evicted);
    assert_eq!(cache.handle_cache_check(&addr(2)), None);
}

#[test]
fn lookup_miss_is_empty_not_an_error() {
    let cache = AccountCache::new();
    assert_eq!(cache.handle_cache_check(&addr(9)), None);
}

#[test]
fn stopped_cache_processes_no_further_writes() {
    let mut cache = AccountCache::new();
    cache.step(CacheEvent::Write { account: account(2) });
    cache.signal_stop();
    let out = cache.step(CacheEvent::Write { account: account(3) });
    assert_eq!(out, CacheOutcome::Stopped);
    let out = cache.step(CacheEvent::RemovalSignal { address: addr(2) });
    assert_eq!(out, CacheOutcome::Stopped);
    assert_eq!(cache.handle_cache_check(&addr(2)), Some(&account(2)));
    assert_eq!(cache.handle_cache_check(&addr(3)), None);
}

#[test]
fn waiters_resolve_in_registration_order_one_per_confirmation() {
    let mut registry = PendingTransactions::new();
    for waiter in [11u64, 12, 13] {
        let out = registry.step(PendingEvent::NewPending {
            address: addr(2),
            token: token(5),
            reply: waiter,
        });
        assert_eq!(out, PendingOutcome::Registered);
    }
    for expected in [11u64, 12, 13] {
        match registry.step(PendingEvent::Confirmed { address: addr(2), token: token(5) }) {
            PendingOutcome::Resolved { resolution } => {
                assert_eq!(resolution.waiter, expected);
                assert_eq!(resolution.address, addr(2));
                assert_eq!(resolution.program_id, addr(5));
            },
            other => panic!("expected a resolution, got {:?}", other),
        }
    }
    let out = registry.step(PendingEvent::Confirmed { address: addr(2), token: token(5) });
    assert_eq!(out, PendingOutcome::NoWaiter);
}

#[test]
fn first_registration_for_a_new_address_is_retained() {
    let mut registry = PendingTransactions::new();
    registry.handle_new_pending(addr(7), token(5), 99);
    match registry.handle_confirmed(addr(7), token(5)) {
        Some(resolution) => assert_eq!(resolution.waiter, 99),
        None => panic!("the waiter registered for a brand-new address was lost"),
    }
}

#[test]
fn registration_on_an_existing_address_appends() {
    let mut registry = PendingTransactions::new();
    registry.handle_new_pending(addr(7), token(5), 1);
    registry.handle_new_pending(addr(7), token(6), 2);
    registry.handle_new_pending(addr(7), token(5), 3);
    assert_eq!(registry.handle_confirmed(addr(7), token(5)).unwrap().waiter, 1);
    assert_eq!(registry.handle_confirmed(addr(7), token(6)).unwrap().waiter, 2);
    assert_eq!(registry.handle_confirmed(addr(7), token(5)).unwrap().waiter, 3);
    assert!(registry.handle_confirmed(addr(7), token(5)).is_none());
}

#[test]
fn confirmation_without_registration_is_a_no_op() {
    let mut registry = PendingTransactions::new();
    assert!(registry.handle_confirmed(addr(4), token(5)).is_none());
    registry.handle_new_pending(addr(4), token(5), 8);
    assert!(registry.handle_confirmed(addr(4), token(6)).is_none());
    assert_eq!(registry.handle_confirmed(addr(4), token(5)).unwrap().waiter, 8);
}

#[test]
fn stopped_registry_processes_nothing() {
    let mut registry = PendingTransactions::new();
    registry.signal_stop();
    let out = registry.step(PendingEvent::NewPending {
        address: addr(2),
        token: token(5),
        reply: 1,
    });
    assert_eq!(out, PendingOutcome::Stopped);
}

#[test]
fn pending_tokens_queue_per_program() {
    let mut table = PendingTokens::new(token(5), 1);
    table.insert(token(5), 2);
    table.insert(token(6), 3);
    assert_eq!(table.get(&token(5)), Some(&vec![1u64, 2]));
    assert_eq!(table.get(&token(6)), Some(&vec![3u64]));
    assert_eq!(table.get(&token(7)), None);
    assert_eq!(table.remove(&token(5)), Some(vec![1u64, 2]));
    assert_eq!(table.get(&token(5)), None);
}

#[test]
fn submission_requests_validation_with_fresh_signal() {
    let mut queue = PendingBlobCache::new();
    let response = BlobResponse::new(String::from("req-7"));
    let out = queue.step(BlobEvent::Write { address: addr(2), response });
    assert_eq!(
        out,
        BlobOutcome::Submitted {
            message: DaClientMessage::ValidateBlob {
                request_id: String::from("req-7"),
                address: addr(2),
                completion_signal: 0,
            }
        }
    );
}

#[test]
fn validation_settles_once_and_only_once() {
    let mut queue = PendingBlobCache::new();
    let response = BlobResponse::new(String::from("req-7"));
    queue.step(BlobEvent::Write { address: addr(2), response });
    let proof = BlobVerificationProof::new(String::from("0xfeedbead"), 9);
    let out = queue.step(BlobEvent::Validated { address: addr(2), blob_proof: proof.clone() });
    assert_eq!(
        out,
        BlobOutcome::Settled {
            settle: EoMessage::Settle {
                address: addr(2),
                batch_header_hash: String::from("0xfeedbead"),
                blob_index: 9,
            },
            retrieve: DaClientMessage::RetrieveBlob {
                batch_header_hash: String::from("0xfeedbead"),
                blob_index: 9,
            },
        }
    );
    let out = queue.step(BlobEvent::Validated { address: addr(2), blob_proof: proof });
    assert_eq!(out, BlobOutcome::Ignored);
}

#[test]
fn resubmission_for_the_same_address_wins() {
    let mut queue = PendingBlobCache::new();
    queue.handle_queue_write(addr(2), BlobResponse::new(String::from("first")));
    let msg = queue.handle_queue_write(addr(2), BlobResponse::new(String::from("second")));
    assert_eq!(
        msg,
        DaClientMessage::ValidateBlob {
            request_id: String::from("second"),
            address: addr(2),
            completion_signal: 1,
        }
    );
    assert_eq!(queue.queue.len(), 1);
    assert_eq!(queue.queue.get(&addr(2)), Some(&BlobResponse::new(String::from("second"))));
}

#[test]
fn stopped_blob_queue_processes_nothing() {
    let mut queue = PendingBlobCache::new();
    queue.handle_queue_write(addr(2), BlobResponse::new(String::from("req")));
    queue.signal_stop();
    let proof = BlobVerificationProof::new(String::from("0xabc"), 1);
    let out = queue.step(BlobEvent::Validated { address: addr(2), blob_proof: proof });
    assert_eq!(out, BlobOutcome::Stopped);
    assert!(queue.queue.contains_key(&addr(2)));
}
