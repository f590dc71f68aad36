//! Typed client bindings for a chain's native module groups.
//!
//! A sandboxed contract talks to the host runtime's leverage, oracle,
//! incentive and metoken modules through custom messages and queries. This
//! library gives every operation a typed request and response, packs
//! requests into single-slot envelopes tagged by a discriminant, carries
//! them across the host boundary as canonical wire text, and classifies the
//! host's three-tier outcome into typed errors. The wire codec is verified
//! to be its own inverse, the envelopes to hold exactly one populated slot,
//! the catalogs to answer an unrecognized sentinel outside their range, and
//! the owner transition to refuse every caller but the owner.

pub mod aggregate_exchange_rate_prevote;
pub mod aggregate_exchange_rate_vote;
pub mod bad_debt;
pub mod base;
pub mod contract;
pub mod contract_msg;
pub mod error;
pub mod legacy;
pub mod leverage_parameters;
pub mod msg;
pub mod msg_leverage;
pub mod msg_oracle;
pub mod oracle_parameters;
pub mod query;
pub mod query_incentive;
pub mod query_leverage;
pub mod query_metoken;
pub mod query_oracle;
pub mod record;
pub mod response;
pub mod state;
pub mod token;
pub mod wire;
