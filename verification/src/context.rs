//! What a built-in contract is given to work with.

use crate::address::{Address, AddressWithSpace, H256};
use crate::state::State;
use crate::statedb::DbError;
use crate::substate::{FrameStackInfo, LogEntry, Substate, SubstateModel};
use crate::uint::U256;
use crate::vm::{ActionParams, Env, Error, Spec};
use vstd::prelude::*;

verus! {

/// The parts of an execution that a built-in contract reads and changes.
pub struct InternalRefContext<'a> {
    pub env: &'a Env,
    pub spec: &'a Spec,
    pub callstack: &'a mut FrameStackInfo,
    pub state: &'a mut State,
    pub substate: &'a mut Substate,
    pub static_flag: bool,
    pub depth: usize,
}

/// The account that a frame's parameters name as the one in whose name the frame runs.
pub open spec fn receiver_of(params: &ActionParams) -> AddressWithSpace {
    AddressWithSpace { address: params.address, space: params.space }
}

impl<'a> InternalRefContext<'a> {
    /// What no operation changes: the block, the schedule, the static flag and the depth.
    pub open spec fn same_frame(&self, other: &InternalRefContext<'a>) -> bool {
        &&& self.env == other.env
        &&& self.spec == other.spec
        &&& self.static_flag == other.static_flag
        &&& self.depth == other.depth
    }

    /// Writes a log in the name of the frame. In a static context nothing is written, and
    /// the error is `MutableCallInStaticContext`.
    pub fn log(&mut self, params: &ActionParams, _spec: &Spec, topics: Vec<H256>, data: Vec<u8>) -> (r: Result<
        (),
        Error,
    >)
        ensures
            final(self).same_frame(old(self)),
            *final(final(self).state) == *final(old(self).state),
            *final(final(self).substate) == *final(old(self).substate),
            *final(final(self).callstack) == *final(old(self).callstack),
            *final(self).state == *old(self).state,
            *final(self).callstack == *old(self).callstack,
            old(self).static_flag ==> r == Err::<(), Error>(Error::MutableCallInStaticContext)
                && *final(self).substate == *old(self).substate,
            !old(self).static_flag ==> r is Ok && final(self).substate@ == (SubstateModel {
                logs: old(self).substate@.logs.push(
                    LogEntry { address: params.address, topics, data, space: params.space },
                ),
                ..old(self).substate@
            }),
    {
        if self.static_flag {
            return Err(Error::MutableCallInStaticContext);
        }
        let address = params.address;
        self.substate.logs.push(LogEntry { address, topics, data, space: params.space });
        Ok(())
    }

    /// Stores a value under a key of the account in whose name the frame runs.
    pub fn set_storage(&mut self, params: &ActionParams, key: Vec<u8>, value: U256) -> (r: Result<(), Error>)
        ensures
            final(self).same_frame(old(self)),
            *final(final(self).state) == *final(old(self).state),
            *final(final(self).substate) == *final(old(self).substate),
            *final(final(self).callstack) == *final(old(self).callstack),
            *final(self).substate == *old(self).substate,
            *final(self).callstack == *old(self).callstack,
            r is Ok,
            final(self).state@ == old(self).state@.set_storage(receiver_of(params), key@, value@),
            final(self).state.total_balance() == old(self).state.total_balance(),
    {
        let receiver = params.address.with_space(params.space);
        self.state.set_storage(&receiver, key, value);
        Ok(())
    }

    /// Reads the value under a key of the account in whose name the frame runs.
    pub fn storage_at(&mut self, params: &ActionParams, key: &[u8]) -> (r: Result<U256, DbError>)
        ensures
            final(self).same_frame(old(self)),
            *final(final(self).state) == *final(old(self).state),
            *final(final(self).substate) == *final(old(self).substate),
            *final(final(self).callstack) == *final(old(self).callstack),
            *final(self).state == *old(self).state,
            *final(self).substate == *old(self).substate,
            *final(self).callstack == *old(self).callstack,
            r matches Ok(v) && v@ == old(self).state@.storage_at(receiver_of(params), key@),
    {
        let receiver = params.address.with_space(params.space);
        Ok(self.state.storage_at(&receiver, key))
    }

    /// Whether an address is that of a contract.
    pub fn is_contract_address(&self, address: &Address) -> (r: Result<bool, Error>)
        ensures
            r == Ok::<bool, Error>(address.type_nibble() == 8),
    {
        Ok(address.is_contract_address())
    }
}

} // verus!
