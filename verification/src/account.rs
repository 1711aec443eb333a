//! Accounts, per-program token balances and the delta objects that mutate
//! them. Balances are 256-bit; every mutation is delta-based and validated
//! against the available balance before it is applied.

use vstd::prelude::*;
use crate::address::Address;
use crate::addr_map::AddrMap;
use crate::u256::{U256, u256_bound};
use vstd::pervasive::unreached;

verus! {

/// The typed failure surfaced for domain errors: an unknown program id or a
/// delta that would exceed the available balance.
#[derive(Clone, Copy, Debug, PartialEq, Eq)]
pub struct AccountCacheError;

pub type AccountResult<T> = Result<T, AccountCacheError>;

/// Whether a token balance may currently be spent.
#[derive(Clone, Copy, Debug, PartialEq, Eq, Structural)]
pub enum Status {
    Locked,
    Free,
}

/// Arbitrary opaque bytes attached to a token.
#[derive(Clone, Debug, PartialEq, Eq)]
pub struct ArbitraryData(pub Vec<u8>);

impl ArbitraryData {
    pub fn new() -> (d: ArbitraryData)
        ensures
            d.0@.len() == 0,
    {
        ArbitraryData(Vec::new())
    }

    pub fn bytes(&self) -> (b: &Vec<u8>)
        ensures
            b == &self.0,
    {
        &self.0
    }
}

/// Token metadata, stored as opaque bytes.
#[derive(Clone, Debug, PartialEq, Eq)]
pub struct Metadata(pub Vec<u8>);

impl Metadata {
    pub fn new(bytes: Vec<u8>) -> (m: Metadata)
        ensures
            m.0 == bytes,
    {
        Metadata(bytes)
    }

    pub fn bytes(&self) -> (b: &Vec<u8>)
        ensures
            b == &self.0,
    {
        &self.0
    }
}

/// One per-program balance record owned by an account.
#[derive(Clone, Debug, PartialEq, Eq)]
pub struct Token {
    pub program_id: Address,
    pub owner_id: Address,
    pub balance: U256,
    pub metadata: Metadata,
    pub token_ids: Vec<U256>,
    pub allowance: AddrMap<U256>,
    pub approvals: AddrMap<U256>,
    pub data: ArbitraryData,
    pub status: Status,
}

/// Everything of two tokens agrees except possibly the balance.
pub open spec fn same_token_except_balance(a: Token, b: Token) -> bool {
    &&& a.program_id == b.program_id
    &&& a.owner_id == b.owner_id
    &&& a.metadata == b.metadata
    &&& a.token_ids == b.token_ids
    &&& a.allowance == b.allowance
    &&& a.approvals == b.approvals
    &&& a.data == b.data
    &&& a.status == b.status
}

impl Token {
    pub fn program_id(&self) -> (a: Address)
        ensures
            a == self.program_id,
    {
        self.program_id
    }

    pub fn balance(&self) -> (b: U256)
        ensures
            b == self.balance,
    {
        self.balance
    }

    /// Applies a delta to the balance: `receive` is added, then `send` is
    /// subtracted. The caller has validated the delta, so neither step can
    /// leave the 256-bit range.
    pub fn update_balance(&mut self, receive: U256, send: U256)
        requires
            old(self).balance.as_nat() + receive.as_nat() < u256_bound(),
            send.as_nat() <= old(self).balance.as_nat() + receive.as_nat(),
        ensures
            final(self).balance.as_nat() == old(self).balance.as_nat() + receive.as_nat()
                - send.as_nat(),
            same_token_except_balance(*final(self), *old(self)),
    {
        let gained = match self.balance.checked_add(&receive) {
            Some(v) => v,
            None => unreached(),
        };
        let settled = match gained.checked_sub(&send) {
            Some(v) => v,
            None => unreached(),
        };
        self.balance = settled;
    }
}

/// A token paired with the amounts to subtract and add: the unit of balance
/// mutation applied to an account.
#[derive(Clone, Debug, PartialEq, Eq)]
pub struct TokenDelta {
    pub token: Token,
    pub send: U256,
    pub receive: U256,
}

impl TokenDelta {
    pub fn new(token: Token, send: U256, receive: U256) -> (d: TokenDelta)
        ensures
            d.token == token,
            d.send == send,
            d.receive == receive,
    {
        TokenDelta { token, send, receive }
    }

    pub fn program_id(&self) -> (a: Address)
        ensures
            a == self.token.program_id,
    {
        self.token.program_id()
    }

    pub fn token(&self) -> (t: &Token)
        ensures
            t == &self.token,
    {
        &self.token
    }

    pub fn send(&self) -> (s: &U256)
        ensures
            s == &self.send,
    {
        &self.send
    }

    pub fn receive(&self) -> (r: &U256)
        ensures
            r == &self.receive,
    {
        &self.receive
    }
}

/// A ledger account: its address, one token entry per program it has
/// interacted with, and a monotonically advancing nonce.
#[derive(Clone, Debug, PartialEq, Eq)]
pub struct Account {
    pub address: Address,
    pub programs: AddrMap<Token>,
    pub nonce: U256,
}

impl Account {
    /// The account holds at most one token entry per program id.
    pub open spec fn wf(self) -> bool {
        self.programs.wf()
    }

    pub fn new(address: Address, programs: Option<AddrMap<Token>>) -> (a: Account)
        requires
            match programs {
                Some(m) => m.wf(),
                None => true,
            },
        ensures
            a.wf(),
            a.address == address,
            a.nonce.as_nat() == 0,
            a.programs@ == match programs {
                Some(m) => m@,
                None => Map::<Seq<u8>, Token>::empty(),
            },
    {
        let programs = match programs {
            Some(m) => m,
            None => AddrMap::new(),
        };
        Account { address, programs, nonce: U256::zero() }
    }

    pub fn address(&self) -> (a: Address)
        ensures
            a == self.address,
    {
        self.address
    }

    pub fn nonce(&self) -> (n: U256)
        ensures
            n == self.nonce,
    {
        self.nonce
    }

    pub fn programs(&self) -> (p: &AddrMap<Token>)
        ensures
            p == &self.programs,
    {
        &self.programs
    }

    /// The balance held for `program_id`, or zero when the account has no
    /// entry for it.
    pub fn balance(&self, program_id: &Address) -> (b: U256)
        requires
            self.wf(),
        ensures
            self.programs@.contains_key(program_id@) ==> b == self.programs@[program_id@].balance,
            !self.programs@.contains_key(program_id@) ==> b.as_nat() == 0,
    {
        match self.programs.get(program_id) {
            Some(entry) => entry.balance(),
            None => U256::zero(),
        }
    }

    /// Applies `delta` to the entry for its token's program id, or stores the
    /// delta's token under `program_id` when no entry exists yet. The caller
    /// has validated the delta against the available balance.
    pub fn update_programs(&mut self, program_id: &Address, delta: TokenDelta)
        requires
            old(self).wf(),
            old(self).programs@.contains_key(delta.token.program_id@) ==> {
                let bal = old(self).programs@[delta.token.program_id@].balance.as_nat();
                &&& bal + delta.receive.as_nat() < u256_bound()
                &&& delta.send.as_nat() <= bal + delta.receive.as_nat()
            },
        ensures
            final(self).wf(),
            final(self).address == old(self).address,
            final(self).nonce == old(self).nonce,
            old(self).programs@.contains_key(delta.token.program_id@) ==> {
                let key = delta.token.program_id@;
                let before = old(self).programs@[key];
                let after = final(self).programs@[key];
                &&& final(self).programs@.dom() == old(self).programs@.dom()
                &&& after.balance.as_nat() == before.balance.as_nat() + delta.receive.as_nat()
                    - delta.send.as_nat()
                &&& same_token_except_balance(after, before)
                &&& forall|k: Seq<u8>|
                    old(self).programs@.contains_key(k) && k != key
                        ==> final(self).programs@[k] == old(self).programs@[k]
            },
            !old(self).programs@.contains_key(delta.token.program_id@) ==> final(self).programs@
                == old(self).programs@.insert(program_id@, delta.token),
    {
        let key = delta.token.program_id();
        match self.programs.remove(&key) {
            Some(mut entry) => {
                entry.update_balance(delta.receive, delta.send);
                self.programs.insert(key, entry);
                proof {
                    assert(self.programs@.dom() =~= old(self).programs@.dom());
                }
            },
            None => {
                self.programs.insert(*program_id, delta.token);
                proof {
                    assert(self.programs@ =~= old(self).programs@.insert(
                        program_id@,
                        delta.token,
                    ));
                }
            },
        }
    }

    /// Sends of a non-send transaction are refused; the account itself is
    /// never touched.
    pub fn apply_send_transaction(
        &mut self,
        transaction: crate::transaction::Transaction,
    ) -> (r: AccountResult<()>)
        ensures
            *final(self) == *old(self),
            r is Ok <==> transaction.transaction_type is Send,
    {
        if !transaction.transaction_type().is_send() {
            return Err(AccountCacheError);
        }
        Ok(())
    }

    /// Stores `token` under `program_id`, replacing any prior entry.
    pub fn insert_program(&mut self, program_id: &Address, token: Token)
        requires
            old(self).wf(),
        ensures
            final(self).wf(),
            final(self).address == old(self).address,
            final(self).nonce == old(self).nonce,
            final(self).programs@ == old(self).programs@.insert(program_id@, token),
    {
        self.programs.insert(*program_id, token);
    }

    /// Succeeds exactly when the account holds an entry for `program_id`.
    pub fn validate_program_id(&self, program_id: &Address) -> (r: AccountResult<()>)
        requires
            self.wf(),
        ensures
            r is Ok <==> self.programs@.contains_key(program_id@),
    {
        match self.programs.get(program_id) {
            Some(_) => Ok(()),
            None => Err(AccountCacheError),
        }
    }

    /// Succeeds exactly when the account holds an entry for `program_id`
    /// whose balance covers `amount`; an overdraft is rejected and nothing
    /// is changed.
    pub fn validate_balance(&self, program_id: &Address, amount: U256) -> (r: AccountResult<()>)
        requires
            self.wf(),
        ensures
            r is Ok <==> (self.programs@.contains_key(program_id@)
                && self.programs@[program_id@].balance.as_nat() >= amount.as_nat()),
    {
        match self.programs.get(program_id) {
            Some(token) => {
                if token.balance().ge(&amount) {
                    Ok(())
                } else {
                    Err(AccountCacheError)
                }
            },
            None => Err(AccountCacheError),
        }
    }
}

} // verus!
