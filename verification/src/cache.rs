//! The three concurrent coordinators: the account cache with lease-style
//! eviction, the pending-transaction waiter registry with FIFO resolution,
//! and the pending-blob settlement queue with its two-phase handshake.
//!
//! Each coordinator is driven one event at a time through a `step` function
//! that first polls the stop flag, exactly as the owning event loop does:
//! once the stop signal is set, no further event is processed.

use vstd::prelude::*;
use crate::account::{Account, Token};
use crate::addr_map::AddrMap;
use crate::address::Address;
use crate::messages::{BlobResponse, BlobVerificationProof, DaClientMessage, EoMessage, SignalId};

verus! {

// ---------------------------------------------------------------- account cache

/// An event the account cache's loop can be woken by.
#[derive(Debug, PartialEq, Eq)]
pub enum CacheEvent {
    /// An upsert arriving on the writer channel.
    Write { account: Account },
    /// A previously handed-out removal signal resolved for `address`.
    RemovalSignal { address: Address },
}

/// What one account-cache loop iteration did.
#[derive(Debug, PartialEq, Eq)]
pub enum CacheOutcome {
    /// The stop signal was set; nothing was processed.
    Stopped,
    /// A write was applied; `message` must be delivered to the EO actor.
    Notified { message: EoMessage },
    /// A removal signal was applied and the address evicted.
    Evicted,
}

/// The cache contents after one event.
pub open spec fn spec_cache_step(
    m: Map<Seq<u8>, Account>,
    event: CacheEvent,
) -> Map<Seq<u8>, Account> {
    match event {
        CacheEvent::Write { account } => m.insert(account.address@, account),
        CacheEvent::RemovalSignal { address } => m.remove(address@),
    }
}

/// The cache contents after a sequence of events.
pub open spec fn spec_cache_run(
    m: Map<Seq<u8>, Account>,
    events: Seq<CacheEvent>,
) -> Map<Seq<u8>, Account>
    decreases events.len(),
{
    if events.len() == 0 {
        m
    } else {
        spec_cache_run(spec_cache_step(m, events[0]), events.drop_first())
    }
}

/// Whether `event` is the removal signal for `addr`.
pub open spec fn evicts(event: CacheEvent, addr: Seq<u8>) -> bool {
    match event {
        CacheEvent::RemovalSignal { address } => address@ == addr,
        _ => false,
    }
}

/// Writing the same account twice is the same as writing it once: neither
/// the cache contents nor the cache size change on the second write.
pub proof fn lemma_write_idempotent(m: Map<Seq<u8>, Account>, account: Account)
    ensures
        spec_cache_step(spec_cache_step(m, CacheEvent::Write { account }), CacheEvent::Write {
            account,
        }) == spec_cache_step(m, CacheEvent::Write { account }),
{
    assert(spec_cache_step(spec_cache_step(m, CacheEvent::Write { account }), CacheEvent::Write {
        account,
    }) =~= spec_cache_step(m, CacheEvent::Write { account }));
}

/// Eviction only on signal: a resident address survives any run of events
/// that contains no removal signal for it. (The converse is immediate from
/// `spec_cache_step`: the removal signal for an address removes exactly that
/// address, and a later lookup returns nothing.)
pub proof fn lemma_eviction_only_on_signal(
    m: Map<Seq<u8>, Account>,
    events: Seq<CacheEvent>,
    addr: Seq<u8>,
)
    requires
        m.contains_key(addr),
        forall|i: int| 0 <= i < events.len() ==> !evicts(#[trigger] events[i], addr),
    ensures
        spec_cache_run(m, events).contains_key(addr),
    decreases events.len(),
{
    if events.len() > 0 {
        let m1 = spec_cache_step(m, events[0]);
        assert(!evicts(events[0], addr));
        assert(m1.contains_key(addr));
        assert(forall|i: int|
            0 <= i < events.drop_first().len() ==> !evicts(
                #[trigger] events.drop_first()[i],
                addr,
            ));
        lemma_eviction_only_on_signal(m1, events.drop_first(), addr);
    }
}

/// Whether `event` writes the account stored at `addr`.
pub open spec fn writes(event: CacheEvent, addr: Seq<u8>) -> bool {
    match event {
        CacheEvent::Write { account } => account.address@ == addr,
        _ => false,
    }
}

/// The cache never ages an entry out or mutates it on its own: across any
/// run of events that neither writes nor evicts an address, the entry stays
/// resident with the value last written.
pub proof fn lemma_untouched_entry_unchanged(
    m: Map<Seq<u8>, Account>,
    events: Seq<CacheEvent>,
    addr: Seq<u8>,
)
    requires
        m.contains_key(addr),
        forall|i: int|
            0 <= i < events.len() ==> !evicts(#[trigger] events[i], addr) && !writes(
                events[i],
                addr,
            ),
    ensures
        spec_cache_run(m, events).contains_key(addr),
        spec_cache_run(m, events)[addr] == m[addr],
    decreases events.len(),
{
    if events.len() > 0 {
        let m1 = spec_cache_step(m, events[0]);
        assert(!evicts(events[0], addr) && !writes(events[0], addr));
        assert(m1.contains_key(addr) && m1[addr] == m[addr]);
        assert(forall|i: int|
            0 <= i < events.drop_first().len() ==> !evicts(#[trigger] events.drop_first()[i], addr)
                && !writes(events.drop_first()[i], addr));
        lemma_untouched_entry_unchanged(m1, events.drop_first(), addr);
    }
}

/// The handle issued after `s`: the counter wraps when the handle space is
/// exhausted, so issuing never fails.
pub open spec fn spec_next_signal(s: SignalId) -> SignalId {
    if s == u64::MAX {
        0
    } else {
        (s + 1) as SignalId
    }
}

/// The in-process view of recently-touched accounts. Entries leave only when
/// the EO actor resolves the removal signal handed out at write time.
#[derive(Debug)]
pub struct AccountCache {
    pub cache: AddrMap<Account>,
    pub next_signal: SignalId,
    pub stopped: bool,
}

impl AccountCache {
    pub open spec fn wf(self) -> bool {
        self.cache.wf()
    }

    pub fn new() -> (c: AccountCache)
        ensures
            c.wf(),
            c.cache@ == Map::<Seq<u8>, Account>::empty(),
            c.next_signal == 0,
            !c.stopped,
    {
        AccountCache { cache: AddrMap::new(), next_signal: 0, stopped: false }
    }

    /// Upserts `account` under its address and returns the notification owed
    /// to the EO actor, carrying a fresh removal signal. One notification is
    /// owed per write, whether or not the address was already resident.
    pub fn handle_cache_write(&mut self, account: Account) -> (m: EoMessage)
        requires
            old(self).wf(),
        ensures
            final(self).wf(),
            final(self).cache@ == old(self).cache@.insert(account.address@, account),
            final(self).next_signal == spec_next_signal(old(self).next_signal),
            final(self).stopped == old(self).stopped,
            m == (EoMessage::AccountCached {
                address: account.address,
                removal_signal: old(self).next_signal,
            }),
    {
        let address = account.address();
        self.cache.insert(address, account);
        let signal = self.next_signal;
        self.next_signal = if signal == u64::MAX {
            0
        } else {
            signal + 1
        };
        EoMessage::AccountCached { address, removal_signal: signal }
    }

    /// Evicts `address` unconditionally: the removal signal has resolved.
    pub fn handle_cache_removal(&mut self, address: &Address)
        requires
            old(self).wf(),
        ensures
            final(self).wf(),
            final(self).cache@ == old(self).cache@.remove(address@),
            final(self).next_signal == old(self).next_signal,
            final(self).stopped == old(self).stopped,
    {
        let _ = self.cache.remove(address);
    }

    /// Point lookup; a miss is not an error, merely absence from the cache.
    pub fn handle_cache_check(&self, address: &Address) -> (r: Option<&Account>)
        requires
            self.wf(),
        ensures
            match r {
                Some(a) => self.cache@.contains_key(address@) && *a == self.cache@[address@],
                None => !self.cache@.contains_key(address@),
            },
    {
        self.cache.get(address)
    }

    /// Sets the single-shot stop signal; the next iteration observes it.
    pub fn signal_stop(&mut self)
        ensures
            final(self).cache == old(self).cache,
            final(self).next_signal == old(self).next_signal,
            final(self).stopped,
    {
        self.stopped = true;
    }

    /// One loop iteration: polls the stop flag, then processes one event.
    /// Once the stop signal is set, no further write or removal is applied.
    pub fn step(&mut self, event: CacheEvent) -> (r: CacheOutcome)
        requires
            old(self).wf(),
        ensures
            final(self).wf(),
            old(self).stopped ==> *final(self) == *old(self) && r is Stopped,
            !old(self).stopped ==> {
                &&& final(self).cache@ == spec_cache_step(old(self).cache@, event)
                &&& !final(self).stopped
                &&& match event {
                    CacheEvent::Write { account } => r == (CacheOutcome::Notified {
                        message: EoMessage::AccountCached {
                            address: account.address,
                            removal_signal: old(self).next_signal,
                        },
                    }) && final(self).next_signal == spec_next_signal(old(self).next_signal),
                    CacheEvent::RemovalSignal { .. } => r is Evicted && final(self).next_signal
                        == old(self).next_signal,
                }
            },
    {
        if self.stopped {
            return CacheOutcome::Stopped;
        }
        match event {
            CacheEvent::Write { account } => {
                let message = self.handle_cache_write(account);
                CacheOutcome::Notified { message }
            },
            CacheEvent::RemovalSignal { address } => {
                self.handle_cache_removal(&address);
                CacheOutcome::Evicted
            },
        }
    }
}

// ------------------------------------------------- pending transaction registry

/// The per-account waiter table: program id to the FIFO queue of waiters
/// registered for that program's pending operation.
#[derive(Debug)]
pub struct PendingTokens {
    pub map: AddrMap<Vec<SignalId>>,
}

impl View for PendingTokens {
    type V = Map<Seq<u8>, Seq<SignalId>>;

    open spec fn view(&self) -> Map<Seq<u8>, Seq<SignalId>> {
        self.map@.map_values(|q: Vec<SignalId>| q@)
    }
}

impl PendingTokens {
    /// Unique program ids, and no queue left empty.
    pub open spec fn wf(self) -> bool {
        &&& self.map.wf()
        &&& forall|k: Seq<u8>| #[trigger] self.map@.contains_key(k) ==> self.map@[k]@.len() > 0
    }

    /// A table holding one waiter for the token's program.
    pub fn new(token: Token, sender: SignalId) -> (p: PendingTokens)
        ensures
            p.wf(),
            p@ == Map::<Seq<u8>, Seq<SignalId>>::empty().insert(
                token.program_id@,
                seq![sender],
            ),
    {
        let mut map: AddrMap<Vec<SignalId>> = AddrMap::new();
        let mut q: Vec<SignalId> = Vec::new();
        q.push(sender);
        map.insert(token.program_id(), q);
        let p = PendingTokens { map };
        proof {
            assert(p@ =~= Map::<Seq<u8>, Seq<SignalId>>::empty().insert(
                token.program_id@,
                seq![sender],
            ));
        }
        p
    }

    /// Appends `sender` to the queue for the token's program, creating the
    /// queue if absent.
    pub fn insert(&mut self, token: Token, sender: SignalId)
        requires
            old(self).wf(),
        ensures
            final(self).wf(),
            final(self)@ == old(self)@.insert(
                token.program_id@,
                spec_queue_of(old(self)@, token.program_id@).push(sender),
            ),
    {
        let pid = token.program_id();
        match self.map.remove(&pid) {
            Some(mut q) => {
                q.push(sender);
                self.map.insert(pid, q);
            },
            None => {
                let mut q: Vec<SignalId> = Vec::new();
                q.push(sender);
                self.map.insert(pid, q);
            },
        }
        proof {
            assert(self@ =~= old(self)@.insert(
                token.program_id@,
                spec_queue_of(old(self)@, token.program_id@).push(sender),
            ));
        }
    }

    /// Removes and returns the whole queue for the token's program.
    pub fn remove(&mut self, token: &Token) -> (r: Option<Vec<SignalId>>)
        requires
            old(self).wf(),
        ensures
            final(self).wf(),
            final(self)@ == old(self)@.remove(token.program_id@),
            r is Some <==> old(self)@.contains_key(token.program_id@),
            match r {
                Some(q) => q@ == old(self)@[token.program_id@] && q@.len() > 0,
                None => true,
            },
    {
        let pid = token.program_id();
        let r = self.map.remove(&pid);
        proof {
            assert(self@ =~= old(self)@.remove(token.program_id@));
        }
        r
    }

    /// The queue for the token's program, if any waiter is registered.
    pub fn get(&self, token: &Token) -> (r: Option<&Vec<SignalId>>)
        requires
            self.wf(),
        ensures
            match r {
                Some(q) => self@.contains_key(token.program_id@) && q@ == self@[
                    token.program_id@
                ],
                None => !self@.contains_key(token.program_id@),
            },
    {
        let pid = token.program_id();
        self.map.get(&pid)
    }
}

/// The nested waiter view: address to program id to FIFO waiter queue.
pub type WaiterTable = Map<Seq<u8>, Map<Seq<u8>, Seq<SignalId>>>;

/// The queue registered at `pid`, or the empty queue.
pub open spec fn spec_queue_of(v: Map<Seq<u8>, Seq<SignalId>>, pid: Seq<u8>) -> Seq<SignalId> {
    if v.contains_key(pid) {
        v[pid]
    } else {
        Seq::empty()
    }
}

/// The queue registered at `(addr, pid)`, or the empty queue.
pub open spec fn spec_waiters_at(v: WaiterTable, addr: Seq<u8>, pid: Seq<u8>) -> Seq<SignalId> {
    if v.contains_key(addr) {
        spec_queue_of(v[addr], pid)
    } else {
        Seq::empty()
    }
}

/// The table after registering one waiter, creating the address-level and
/// program-level entries if absent.
pub open spec fn spec_register(
    v: WaiterTable,
    addr: Seq<u8>,
    pid: Seq<u8>,
    waiter: SignalId,
) -> WaiterTable {
    let inner = if v.contains_key(addr) {
        v[addr]
    } else {
        Map::empty()
    };
    v.insert(addr, inner.insert(pid, spec_queue_of(inner, pid).push(waiter)))
}

/// The table after one confirmation for `(addr, pid)`, and the waiter it
/// resolves: the head of the queue leaves, the program-level entry leaves
/// when its queue empties, and a confirmation with no registered waiter is
/// a no-op.
pub open spec fn spec_confirm(v: WaiterTable, addr: Seq<u8>, pid: Seq<u8>) -> (
    WaiterTable,
    Option<SignalId>,
) {
    if v.contains_key(addr) && v[addr].contains_key(pid) && v[addr][pid].len() > 0 {
        let q = v[addr][pid];
        let inner = if q.len() == 1 {
            v[addr].remove(pid)
        } else {
            v[addr].insert(pid, q.drop_first())
        };
        (v.insert(addr, inner), Some(q[0]))
    } else {
        (v, None)
    }
}

/// The table and the resolutions after `k` successive confirmations for
/// `(addr, pid)`.
pub open spec fn spec_confirm_many(v: WaiterTable, addr: Seq<u8>, pid: Seq<u8>, k: nat) -> (
    WaiterTable,
    Seq<SignalId>,
)
    decreases k,
{
    if k == 0 {
        (v, Seq::empty())
    } else {
        let (v1, popped) = spec_confirm(v, addr, pid);
        let (v2, rest) = spec_confirm_many(v1, addr, pid, (k - 1) as nat);
        match popped {
            Some(w) => (v2, seq![w] + rest),
            None => (v2, rest),
        }
    }
}

/// A confirmation with no registered waiter resolves nobody and changes
/// nothing.
pub proof fn lemma_confirm_no_waiter(v: WaiterTable, addr: Seq<u8>, pid: Seq<u8>)
    requires
        spec_waiters_at(v, addr, pid).len() == 0,
    ensures
        spec_confirm(v, addr, pid) == (v, None::<SignalId>),
{
}

/// FIFO with at most one resolution per confirmation: with waiters `q`
/// registered for `(addr, pid)`, `k` confirmations resolve exactly the first
/// `k` waiters of `q`, in registration order, one per confirmation; once `q`
/// is exhausted every further confirmation resolves nobody.
pub proof fn lemma_confirmations_fifo(v: WaiterTable, addr: Seq<u8>, pid: Seq<u8>, k: nat)
    ensures
        ({
            let q = spec_waiters_at(v, addr, pid);
            let (v2, resolved) = spec_confirm_many(v, addr, pid, k);
            &&& k <= q.len() ==> resolved == q.take(k as int) && spec_waiters_at(v2, addr, pid)
                == q.skip(k as int)
            &&& k >= q.len() ==> resolved == q && spec_waiters_at(v2, addr, pid)
                == Seq::<SignalId>::empty()
        }),
    decreases k,
{
    let q = spec_waiters_at(v, addr, pid);
    if k == 0 {
        assert(q.take(0) =~= Seq::<SignalId>::empty());
        assert(q.skip(0) =~= q);
    } else {
        let (v1, popped) = spec_confirm(v, addr, pid);
        if q.len() == 0 {
            lemma_confirm_no_waiter(v, addr, pid);
            lemma_confirmations_fifo(v, addr, pid, (k - 1) as nat);
        } else {
            let q1 = q.skip(1);
            assert(spec_waiters_at(v1, addr, pid) =~= q1);
            lemma_confirmations_fifo(v1, addr, pid, (k - 1) as nat);
            let (v2, rest) = spec_confirm_many(v1, addr, pid, (k - 1) as nat);
            if k <= q.len() {
                assert(seq![q[0]] + q1.take(k - 1) =~= q.take(k as int));
                assert(q1.skip(k - 1) =~= q.skip(k as int));
            }
            if k >= q.len() {
                assert(seq![q[0]] + q1 =~= q);
            }
        }
    }
}

/// One resolved waiter: the signal to fire and the confirmation value it is
/// owed.
#[derive(Clone, Copy, Debug, PartialEq, Eq)]
pub struct Resolution {
    pub waiter: SignalId,
    pub address: Address,
    pub program_id: Address,
}

/// An event the registry's loop can be woken by.
#[derive(Debug, PartialEq, Eq)]
pub enum PendingEvent {
    /// A caller registers a waiter for `(address, token.program_id)`.
    NewPending { address: Address, token: Token, reply: SignalId },
    /// A confirmation arrived for `(address, token.program_id)`.
    Confirmed { address: Address, token: Token },
}

/// What one registry loop iteration did.
#[derive(Debug, PartialEq, Eq)]
pub enum PendingOutcome {
    /// The stop signal was set; nothing was processed.
    Stopped,
    /// The waiter was registered.
    Registered,
    /// A confirmation resolved the earliest registered waiter.
    Resolved { resolution: Resolution },
    /// A confirmation found no registered waiter; nothing changed.
    NoWaiter,
}

/// Lets many independent callers wait for confirmation of a specific
/// `(account, program)` pending operation; confirmations resolve waiters in
/// registration order, one per confirmation.
#[derive(Debug)]
pub struct PendingTransactions {
    pub pending: AddrMap<PendingTokens>,
    pub stopped: bool,
}

impl View for PendingTransactions {
    type V = WaiterTable;

    open spec fn view(&self) -> WaiterTable {
        self.pending@.map_values(|pt: PendingTokens| pt@)
    }
}

impl PendingTransactions {
    pub open spec fn wf(self) -> bool {
        &&& self.pending.wf()
        &&& forall|k: Seq<u8>| #[trigger] self.pending@.contains_key(k) ==> self.pending@[k].wf()
    }

    pub fn new() -> (p: PendingTransactions)
        ensures
            p.wf(),
            p@ == Map::<Seq<u8>, Map<Seq<u8>, Seq<SignalId>>>::empty(),
            !p.stopped,
    {
        let p = PendingTransactions { pending: AddrMap::new(), stopped: false };
        proof {
            assert(p@ =~= Map::<Seq<u8>, Map<Seq<u8>, Seq<SignalId>>>::empty());
        }
        p
    }

    /// Registers `tx` as the newest waiter for `(address, token.program_id)`,
    /// creating the address-level and program-level entries if absent.
    pub fn handle_new_pending(&mut self, address: Address, token: Token, tx: SignalId)
        requires
            old(self).wf(),
        ensures
            final(self).wf(),
            final(self).stopped == old(self).stopped,
            final(self)@ == spec_register(old(self)@, address@, token.program_id@, tx),
    {
        let ghost pid = token.program_id@;
        match self.pending.remove(&address) {
            Some(mut pt) => {
                pt.insert(token, tx);
                self.pending.insert(address, pt);
            },
            None => {
                let pt = PendingTokens::new(token, tx);
                self.pending.insert(address, pt);
            },
        }
        proof {
            assert(self@ =~~= spec_register(old(self)@, address@, pid, tx));
        }
    }

    /// Delivers one confirmation for `(address, token.program_id)`: the
    /// earliest-registered waiter is popped and owed the confirmation value;
    /// with no registered waiter nothing changes and nobody is notified.
    pub fn handle_confirmed(&mut self, address: Address, token: Token) -> (r: Option<Resolution>)
        requires
            old(self).wf(),
        ensures
            final(self).wf(),
            final(self).stopped == old(self).stopped,
            final(self)@ == spec_confirm(old(self)@, address@, token.program_id@).0,
            match r {
                Some(res) => spec_confirm(old(self)@, address@, token.program_id@).1 == Some(
                    res.waiter,
                ) && res.address == address && res.program_id == token.program_id,
                None => spec_confirm(old(self)@, address@, token.program_id@).1 is None,
            },
    {
        let ghost pid = token.program_id@;
        let program_id = token.program_id();
        match self.pending.remove(&address) {
            Some(mut pt) => {
                let ghost pt0 = pt;
                match pt.remove(&token) {
                    Some(mut q) => {
                        let ghost v = old(self)@;
                        let ghost q0 = v[address@][pid];
                        let ghost pt1 = pt;
                        let waiter = q.remove(0);
                        proof {
                            assert(pt0@ == v[address@]);
                            assert(pt1@ == v[address@].remove(pid));
                            assert(v.contains_key(address@) && v[address@].contains_key(pid)
                                && q0.len() > 0);
                            assert(q@ =~= q0.drop_first());
                        }
                        if q.len() > 0 {
                            pt.map.insert(program_id, q);
                            proof {
                                assert(pt@ =~= pt1@.insert(pid, q0.drop_first()));
                                assert(pt@ =~= v[address@].insert(pid, q0.drop_first()));
                            }
                        }
                        proof {
                            if q0.len() == 1 {
                                assert(pt@ =~= v[address@].remove(pid));
                            } else {
                                assert(pt@ =~= v[address@].insert(pid, q0.drop_first()));
                            }
                        }
                        self.pending.insert(address, pt);
                        proof {
                            assert(self@ =~~= spec_confirm(v, address@, pid).0);
                        }
                        Some(Resolution { waiter, address, program_id })
                    },
                    None => {
                        self.pending.insert(address, pt);
                        proof {
                            assert(self@ =~~= old(self)@);
                        }
                        None
                    },
                }
            },
            None => {
                proof {
                    assert(self@ =~~= old(self)@);
                }
                None
            },
        }
    }

    /// Sets the single-shot stop signal; the next iteration observes it.
    pub fn signal_stop(&mut self)
        ensures
            final(self).pending == old(self).pending,
            final(self).stopped,
    {
        self.stopped = true;
    }

    /// One loop iteration: polls the stop flag, then processes one event.
    pub fn step(&mut self, event: PendingEvent) -> (r: PendingOutcome)
        requires
            old(self).wf(),
        ensures
            final(self).wf(),
            old(self).stopped ==> *final(self) == *old(self) && r is Stopped,
            !old(self).stopped ==> {
                &&& !final(self).stopped
                &&& match event {
                    PendingEvent::NewPending { address, token, reply } => final(self)@
                        == spec_register(old(self)@, address@, token.program_id@, reply) && r
                        is Registered,
                    PendingEvent::Confirmed { address, token } => {
                        let (after, popped) = spec_confirm(
                            old(self)@,
                            address@,
                            token.program_id@,
                        );
                        &&& final(self)@ == after
                        &&& match r {
                            PendingOutcome::Resolved { resolution } => popped == Some(
                                resolution.waiter,
                            ) && resolution.address == address && resolution.program_id
                                == token.program_id,
                            PendingOutcome::NoWaiter => popped is None,
                            _ => false,
                        }
                    },
                }
            },
    {
        if self.stopped {
            return PendingOutcome::Stopped;
        }
        match event {
            PendingEvent::NewPending { address, token, reply } => {
                self.handle_new_pending(address, token, reply);
                PendingOutcome::Registered
            },
            PendingEvent::Confirmed { address, token } => {
                match self.handle_confirmed(address, token) {
                    Some(resolution) => PendingOutcome::Resolved { resolution },
                    None => PendingOutcome::NoWaiter,
                }
            },
        }
    }
}

// ------------------------------------------------------ pending blob settlement

/// An event the blob queue's loop can be woken by.
#[derive(Debug, PartialEq, Eq)]
pub enum BlobEvent {
    /// A DA submission response arrived for `address`.
    Write { address: Address, response: BlobResponse },
    /// A registered completion signal resolved with a verification proof.
    Validated { address: Address, blob_proof: BlobVerificationProof },
}

/// What one blob-queue loop iteration did.
#[derive(Debug, PartialEq, Eq)]
pub enum BlobOutcome {
    /// The stop signal was set; nothing was processed.
    Stopped,
    /// A submission was queued; `message` must go to the DA-client actor.
    Submitted { message: DaClientMessage },
    /// A validation resolved: the entry left the queue, `settle` must go to
    /// the EO actor and `retrieve` to the DA-client actor.
    Settled { settle: EoMessage, retrieve: DaClientMessage },
    /// A validation arrived for an address no longer queued; nothing changed.
    Ignored,
}

/// The queue contents after one event.
pub open spec fn spec_blob_step(
    m: Map<Seq<u8>, BlobResponse>,
    event: BlobEvent,
) -> Map<Seq<u8>, BlobResponse> {
    match event {
        BlobEvent::Write { address, response } => m.insert(address@, response),
        BlobEvent::Validated { address, .. } => m.remove(address@),
    }
}

/// Validation is one-shot per address: the first resolution removes the
/// entry, and a second resolution for the same address changes nothing (and,
/// per `PendingBlobCache::handle_queue_removal`, triggers no settlement).
pub proof fn lemma_validation_one_shot(
    m: Map<Seq<u8>, BlobResponse>,
    address: Address,
    first: BlobVerificationProof,
    second: BlobVerificationProof,
)
    ensures
        !spec_blob_step(m, BlobEvent::Validated { address, blob_proof: first }).contains_key(
            address@,
        ),
        spec_blob_step(
            spec_blob_step(m, BlobEvent::Validated { address, blob_proof: first }),
            BlobEvent::Validated { address, blob_proof: second },
        ) == spec_blob_step(m, BlobEvent::Validated { address, blob_proof: first }),
{
    assert(spec_blob_step(
        spec_blob_step(m, BlobEvent::Validated { address, blob_proof: first }),
        BlobEvent::Validated { address, blob_proof: second },
    ) =~= spec_blob_step(m, BlobEvent::Validated { address, blob_proof: first }));
}

/// Coordinates the two-phase submit/validate/settle handshake between the DA
/// layer and the execution layer, keyed by account address.
#[derive(Debug)]
pub struct PendingBlobCache {
    pub queue: AddrMap<BlobResponse>,
    pub next_signal: SignalId,
    pub stopped: bool,
}

impl PendingBlobCache {
    pub open spec fn wf(self) -> bool {
        self.queue.wf()
    }

    pub fn new() -> (c: PendingBlobCache)
        ensures
            c.wf(),
            c.queue@ == Map::<Seq<u8>, BlobResponse>::empty(),
            c.next_signal == 0,
            !c.stopped,
    {
        PendingBlobCache { queue: AddrMap::new(), next_signal: 0, stopped: false }
    }

    /// Upserts the submission response for `address` (last write wins) and
    /// returns the validation request owed to the DA-client actor, carrying
    /// the submission's request id and a fresh completion signal.
    pub fn handle_queue_write(&mut self, address: Address, response: BlobResponse) -> (m:
        DaClientMessage)
        requires
            old(self).wf(),
        ensures
            final(self).wf(),
            final(self).queue@ == old(self).queue@.insert(address@, response),
            final(self).next_signal == spec_next_signal(old(self).next_signal),
            final(self).stopped == old(self).stopped,
            m == (DaClientMessage::ValidateBlob {
                request_id: response.request_id,
                address,
                completion_signal: old(self).next_signal,
            }),
    {
        let request_id = response.request_id();
        self.queue.insert(address, response);
        let signal = self.next_signal;
        self.next_signal = if signal == u64::MAX {
            0
        } else {
            signal + 1
        };
        DaClientMessage::ValidateBlob { request_id, address, completion_signal: signal }
    }

    /// A validation resolved for `address`: removes its queued entry and,
    /// when one was resident, returns the settle notification owed to the EO
    /// actor and the retrieval request owed to the DA-client actor, both
    /// carrying the proof's batch header hash and blob index. A resolution
    /// for an address no longer queued triggers nothing.
    pub fn handle_queue_removal(&mut self, address: Address, blob_proof: BlobVerificationProof)
        -> (r: Option<(EoMessage, DaClientMessage)>)
        requires
            old(self).wf(),
        ensures
            final(self).wf(),
            final(self).queue@ == old(self).queue@.remove(address@),
            final(self).next_signal == old(self).next_signal,
            final(self).stopped == old(self).stopped,
            old(self).queue@.contains_key(address@) ==> r == Some(
                (
                    EoMessage::Settle {
                        address,
                        batch_header_hash: blob_proof.batch_header_hash,
                        blob_index: blob_proof.blob_index,
                    },
                    DaClientMessage::RetrieveBlob {
                        batch_header_hash: blob_proof.batch_header_hash,
                        blob_index: blob_proof.blob_index,
                    },
                ),
            ),
            !old(self).queue@.contains_key(address@) ==> r is None,
    {
        match self.queue.remove(&address) {
            Some(_) => {
                let batch_header_hash = blob_proof.batch_header_hash();
                let blob_index = blob_proof.blob_index();
                let settle = EoMessage::Settle {
                    address,
                    batch_header_hash: blob_proof.batch_header_hash(),
                    blob_index,
                };
                let retrieve = DaClientMessage::RetrieveBlob { batch_header_hash, blob_index };
                Some((settle, retrieve))
            },
            None => None,
        }
    }

    /// Sets the single-shot stop signal; the next iteration observes it.
    pub fn signal_stop(&mut self)
        ensures
            final(self).queue == old(self).queue,
            final(self).next_signal == old(self).next_signal,
            final(self).stopped,
    {
        self.stopped = true;
    }

    /// One loop iteration: polls the stop flag, then processes one event.
    pub fn step(&mut self, event: BlobEvent) -> (r: BlobOutcome)
        requires
            old(self).wf(),
        ensures
            final(self).wf(),
            old(self).stopped ==> *final(self) == *old(self) && r is Stopped,
            !old(self).stopped ==> {
                &&& final(self).queue@ == spec_blob_step(old(self).queue@, event)
                &&& !final(self).stopped
                &&& match event {
                    BlobEvent::Write { address, response } => r == (BlobOutcome::Submitted {
                        message: DaClientMessage::ValidateBlob {
                            request_id: response.request_id,
                            address,
                            completion_signal: old(self).next_signal,
                        },
                    }) && final(self).next_signal == spec_next_signal(old(self).next_signal),
                    BlobEvent::Validated { address, blob_proof } => final(self).next_signal == old(
                        self,
                    ).next_signal && if old(self).queue@.contains_key(address@) {
                        r == (BlobOutcome::Settled {
                            settle: EoMessage::Settle {
                                address,
                                batch_header_hash: blob_proof.batch_header_hash,
                                blob_index: blob_proof.blob_index,
                            },
                            retrieve: DaClientMessage::RetrieveBlob {
                                batch_header_hash: blob_proof.batch_header_hash,
                                blob_index: blob_proof.blob_index,
                            },
                        })
                    } else {
                        r is Ignored
                    },
                }
            },
    {
        if self.stopped {
            return BlobOutcome::Stopped;
        }
        match event {
            BlobEvent::Write { address, response } => {
                let message = self.handle_queue_write(address, response);
                BlobOutcome::Submitted { message }
            },
            BlobEvent::Validated { address, blob_proof } => {
                match self.handle_queue_removal(address, blob_proof) {
                    Some((settle, retrieve)) => BlobOutcome::Settled { settle, retrieve },
                    None => BlobOutcome::Ignored,
                }
            },
        }
    }
}

} // verus!
