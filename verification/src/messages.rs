//! The typed messages the coordinators exchange with their peer actors, and
//! the data carried across the DA boundary. Completion channels appear here
//! as numeric signal handles: the coordinator allocates or receives a handle,
//! and the surrounding runtime ties each handle to a real single-use channel.

use vstd::prelude::*;
use crate::address::Address;

verus! {

/// A handle standing for one single-use completion channel.
pub type SignalId = u64;

/// Messages to the execution/output actor.
#[derive(Clone, Debug, PartialEq, Eq)]
pub enum EoMessage {
    /// An address is now cached; the EO actor owns the removal signal and
    /// resolves it when the entry is safe to evict.
    AccountCached { address: Address, removal_signal: SignalId },
    /// A verified blob may be settled against ledger state.
    Settle { address: Address, batch_header_hash: String, blob_index: u32 },
}

/// Messages to the DA-client actor.
#[derive(Clone, Debug, PartialEq, Eq)]
pub enum DaClientMessage {
    /// Ask the DA layer to validate a submitted blob; the completion signal
    /// eventually resolves with a verification proof, or is dropped.
    ValidateBlob { request_id: String, address: Address, completion_signal: SignalId },
    /// Ask the DA layer for the full blob once it has been verified.
    RetrieveBlob { batch_header_hash: String, blob_index: u32 },
}

/// What a DA submission response carries for this coordinator: the request
/// identifier under which the submission can be validated.
#[derive(Clone, Debug, PartialEq, Eq)]
pub struct BlobResponse {
    pub request_id: String,
}

impl BlobResponse {
    pub fn new(request_id: String) -> (r: BlobResponse)
        ensures
            r.request_id == request_id,
    {
        BlobResponse { request_id }
    }

    pub fn request_id(&self) -> (r: String)
        ensures
            r == self.request_id,
    {
        self.request_id.clone()
    }
}

/// What a verification proof carries for this coordinator: where the blob
/// landed in its batch.
#[derive(Clone, Debug, PartialEq, Eq)]
pub struct BlobVerificationProof {
    pub batch_header_hash: String,
    pub blob_index: u32,
}

impl BlobVerificationProof {
    pub fn new(batch_header_hash: String, blob_index: u32) -> (p: BlobVerificationProof)
        ensures
            p.batch_header_hash == batch_header_hash,
            p.blob_index == blob_index,
    {
        BlobVerificationProof { batch_header_hash, blob_index }
    }

    pub fn batch_header_hash(&self) -> (h: String)
        ensures
            h == self.batch_header_hash,
    {
        self.batch_header_hash.clone()
    }

    pub fn blob_index(&self) -> (i: u32)
        ensures
            i == self.blob_index,
    {
        self.blob_index
    }
}

} // verus!
