//! The actor roles of the surrounding node and the RPC request methods that
//! reach them.

use vstd::prelude::*;
use vstd::string::StringExecFns;
use crate::transaction::Transaction;

verus! {

/// Every actor role the node's registry can address.
#[derive(Clone, Copy, Debug, Hash, PartialEq, Eq, PartialOrd, Ord)]
pub enum ActorType {
    Registry,
    RpcServer,
    Scheduler,
    Validator,
    Engine,
    EoServer,
    DaClient,
    AccountCache,
    BlobCache,
    PendingTransactions,
}

/// The registry name of each actor role.
pub open spec fn spec_actor_name(t: ActorType) -> Seq<char> {
    match t {
        ActorType::Registry => "registry"@,
        ActorType::RpcServer => "rpc_server"@,
        ActorType::Scheduler => "scheduler"@,
        ActorType::Validator => "validator"@,
        ActorType::Engine => "engine"@,
        ActorType::EoServer => "eo_server"@,
        ActorType::DaClient => "da_client"@,
        ActorType::AccountCache => "account_cache"@,
        ActorType::BlobCache => "blob_cache"@,
        ActorType::PendingTransactions => "pending_transactions"@,
    }
}

impl ActorType {
    /// Renders the registry name of the role.
    pub fn to_string(&self) -> (s: String)
        ensures
            s@ == spec_actor_name(*self),
    {
        match self {
            ActorType::Registry => String::from_str("registry"),
            ActorType::RpcServer => String::from_str("rpc_server"),
            ActorType::Scheduler => String::from_str("scheduler"),
            ActorType::Validator => String::from_str("validator"),
            ActorType::Engine => String::from_str("engine"),
            ActorType::EoServer => String::from_str("eo_server"),
            ActorType::DaClient => String::from_str("da_client"),
            ActorType::AccountCache => String::from_str("account_cache"),
            ActorType::BlobCache => String::from_str("blob_cache"),
            ActorType::PendingTransactions => String::from_str("pending_transactions"),
        }
    }
}

/// An RPC request, classified by intent and carrying its transaction.
#[derive(Clone, Debug)]
pub enum RpcRequestMethod {
    Call { transaction: Transaction },
    Send { transaction: Transaction },
    Deploy { transaction: Transaction },
}

} // verus!
