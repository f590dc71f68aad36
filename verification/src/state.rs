//! The one durable record the contract owns.

use vstd::prelude::*;

use crate::base::Addr;

verus! {

/// The contract's durable state: the single owner address, set once at
/// instantiation and changed only through the owner-transfer transition.
#[derive(Clone, Debug, PartialEq, Eq)]
pub struct State {
    pub owner: Addr,
}

} // verus!
