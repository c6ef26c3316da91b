//! Addresses, spaces and 256-bit hashes.

use vstd::prelude::*;

verus! {

/// A 20-byte account address, held as a 160-bit big-endian number: `hi` is the first four
/// bytes, `lo` the last sixteen.
#[derive(Clone, Copy, Debug, PartialEq, Eq, Hash, Structural)]
pub struct Address {
    pub hi: u32,
    pub lo: u128,
}

impl Address {
    /// The address whose bytes are all zero.
    pub fn zero() -> (r: Address)
        ensures
            r == (Address { hi: 0, lo: 0 }),
    {
        Address { hi: 0, lo: 0 }
    }

    /// The high four bits of the first byte, which tell the kind of account.
    pub open spec fn type_nibble(self) -> int {
        self.hi as int / 0x1000_0000
    }

    /// Whether the type bits mark a contract: the first byte has the form `0x8_`.
    pub fn is_contract_address(&self) -> (r: bool)
        ensures
            r == (self.type_nibble() == 8),
    {
        self.hi / 0x1000_0000 == 8
    }

    /// The same address, tagged with a space.
    pub fn with_space(&self, space: Space) -> (r: AddressWithSpace)
        ensures
            r == (AddressWithSpace { address: *self, space }),
    {
        AddressWithSpace { address: *self, space }
    }

    /// The same address, tagged with the Ethereum space.
    pub fn with_evm_space(&self) -> (r: AddressWithSpace)
        ensures
            r == (AddressWithSpace { address: *self, space: Space::Ethereum }),
    {
        AddressWithSpace { address: *self, space: Space::Ethereum }
    }
}

/// A namespace that partitions the address universe.
#[derive(Clone, Copy, Debug, PartialEq, Eq, Hash, Structural)]
pub enum Space {
    Ethereum,
}

/// An address together with the space it lives in. Addresses of different spaces never
/// name the same account.
#[derive(Clone, Copy, Debug, PartialEq, Eq, Hash, Structural)]
pub struct AddressWithSpace {
    pub address: Address,
    pub space: Space,
}

/// A 256-bit value that is not a number: a hash or a log topic, held as two big-endian
/// halves.
#[derive(Clone, Copy, Debug, PartialEq, Eq, Hash, Structural)]
pub struct H256 {
    pub hi: u128,
    pub lo: u128,
}

} // verus!
