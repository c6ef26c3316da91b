//! The transaction as the executor reads it.

use crate::address::{Address, AddressWithSpace, Space};
use crate::uint::U256;
use vstd::prelude::*;

verus! {

/// What a transaction does.
#[derive(Clone, Copy, Debug, PartialEq, Eq, Structural)]
pub enum Action {
    /// Creates a contract from the transaction's data.
    Create,
    /// Calls the account at the address.
    Call(Address),
}

/// A pending transaction.
#[derive(Clone, Debug)]
pub struct Transaction {
    pub sender: AddressWithSpace,
    pub nonce: U256,
    /// The gas limit.
    pub gas: U256,
    pub gas_price: U256,
    pub value: U256,
    pub action: Action,
    pub data: Vec<u8>,
}

impl Transaction {
    pub open spec fn spec_space(&self) -> Space {
        self.sender.space
    }

    /// The space in which the transaction runs: that of its sender.
    pub fn space(&self) -> (r: Space)
        ensures
            r == self.spec_space(),
    {
        self.sender.space
    }

    pub open spec fn is_create(&self) -> bool {
        self.action == Action::Create
    }
}

} // verus!
