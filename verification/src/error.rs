//! Error taxonomy of the contract and of the host bridge.

use vstd::prelude::*;

verus! {

/// What went wrong while carrying a request across the host boundary.
#[derive(Clone, Debug, PartialEq, Eq)]
pub enum BridgeError {
    /// The request could not be put on the wire.
    Encode { detail: String },
    /// The host-level transport itself failed; never retried here.
    System { detail: String },
    /// The native module understood the request and rejected it; never
    /// retried here.
    Remote { detail: String },
    /// The success bytes did not decode into the expected response shape.
    Decode { detail: String },
}

/// What went wrong while executing a contract call.
#[derive(Clone, Debug, PartialEq, Eq)]
pub enum ContractError {
    /// The caller is not the current owner.
    Unauthorized,
    /// A built request failed local validation before reaching the host.
    InvalidEnvelope,
}

} // verus!
