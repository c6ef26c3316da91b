//! The records that pass between the executor and the virtual machine.

use crate::address::{Address, Space, H256};
use crate::statedb::DbError;
use crate::state::CleanupMode;
use crate::uint::U256;
use vstd::prelude::*;

verus! {

/// The gas schedule and the other constants of the machine.
#[derive(Clone, Copy, Debug, PartialEq, Eq, Structural)]
pub struct Spec {
    /// Base gas of a transaction that calls.
    pub tx_gas: usize,
    /// Base gas of a transaction that creates a contract.
    pub tx_create_gas: usize,
    /// Gas for each zero byte of transaction data.
    pub tx_data_zero_gas: usize,
    /// Gas for each non-zero byte of transaction data.
    pub tx_data_non_zero_gas: usize,
    /// The nonce that a new account starts with.
    pub account_start_nonce: U256,
    /// The largest depth at which a frame may run.
    pub max_depth: usize,
    /// Whether balance changes record the touched addresses. Nothing collects them yet;
    /// the flag keeps the hook in place.
    pub track_touched: bool,
}

impl Spec {
    /// The mode in which balance changes are made under this schedule.
    pub fn cleanup_mode(&self) -> (r: CleanupMode)
        ensures
            r == self.spec_cleanup_mode(),
    {
        if self.track_touched {
            CleanupMode::TrackTouched
        } else {
            CleanupMode::NoEmpty
        }
    }

    pub open spec fn spec_cleanup_mode(&self) -> CleanupMode {
        if self.track_touched {
            CleanupMode::TrackTouched
        } else {
            CleanupMode::NoEmpty
        }
    }
}

/// The block in which a transaction runs.
#[derive(Clone, Debug)]
pub struct Env {
    pub number: u64,
    pub timestamp: u64,
    pub author: Address,
    pub difficulty: U256,
    pub gas_limit: U256,
    pub last_hashes: Vec<H256>,
}

/// How a frame's value is to be understood.
#[derive(Clone, Copy, Debug, PartialEq, Eq, Structural)]
pub enum ActionValue {
    /// The value is moved from the sender to the receiver.
    Transfer(U256),
    /// The value is only shown to the code; nothing moves.
    Apparent(U256),
}

impl ActionValue {
    pub open spec fn spec_value(self) -> U256 {
        match self {
            ActionValue::Transfer(v) => v,
            ActionValue::Apparent(v) => v,
        }
    }

    /// The amount, whether it moves or not.
    pub fn value(&self) -> (r: U256)
        ensures
            r == self.spec_value(),
    {
        match self {
            ActionValue::Transfer(v) => *v,
            ActionValue::Apparent(v) => *v,
        }
    }
}

#[derive(Clone, Copy, Debug, PartialEq, Eq, Structural)]
pub enum CallType {
    /// The frame is no call.
    NoCall,
    Call,
    CallCode,
    DelegateCall,
    StaticCall,
}

#[derive(Clone, Copy, Debug, PartialEq, Eq, Structural)]
#[allow(non_camel_case_types)]
pub enum CreateType {
    /// The frame creates nothing.
    NoCreate,
    CREATE,
    CREATE2,
}

/// Whether the parameters of a frame lie inside the code or beside it.
#[derive(Clone, Copy, Debug, PartialEq, Eq, Structural)]
pub enum ParamsType {
    Embedded,
    Separate,
}

/// How the address of a new contract is derived.
#[derive(Clone, Copy, Debug, PartialEq, Eq, Structural)]
pub enum CreateContractAddress {
    /// From the sender and the sender's nonce.
    FromSenderNonce,
}

/// What the virtual machine is given to run one frame.
#[derive(Clone, Debug)]
pub struct ActionParams {
    pub space: Space,
    pub code_address: Address,
    pub code_hash: Option<H256>,
    pub address: Address,
    pub sender: Address,
    pub original_sender: Address,
    pub gas: U256,
    pub gas_price: U256,
    pub value: ActionValue,
    pub code: Option<Vec<u8>>,
    pub data: Option<Vec<u8>>,
    pub call_type: CallType,
    pub create_type: CreateType,
    pub params_type: ParamsType,
}

/// [`ActionParams`] as mathematics.
pub struct ActionParamsModel {
    pub space: Space,
    pub code_address: Address,
    pub code_hash: Option<H256>,
    pub address: Address,
    pub sender: Address,
    pub original_sender: Address,
    pub gas: nat,
    pub gas_price: nat,
    pub value: ActionValue,
    pub code: Option<Seq<u8>>,
    pub data: Option<Seq<u8>>,
    pub call_type: CallType,
    pub create_type: CreateType,
    pub params_type: ParamsType,
}

/// The bytes of an optional byte string.
pub open spec fn opt_bytes(v: Option<Vec<u8>>) -> Option<Seq<u8>> {
    match v {
        Some(b) => Some(b@),
        None => None,
    }
}

impl View for ActionParams {
    type V = ActionParamsModel;

    open spec fn view(&self) -> ActionParamsModel {
        ActionParamsModel {
            space: self.space,
            code_address: self.code_address,
            code_hash: self.code_hash,
            address: self.address,
            sender: self.sender,
            original_sender: self.original_sender,
            gas: self.gas@,
            gas_price: self.gas_price@,
            value: self.value,
            code: opt_bytes(self.code),
            data: opt_bytes(self.data),
            call_type: self.call_type,
            create_type: self.create_type,
            params_type: self.params_type,
        }
    }
}

/// Why the virtual machine stopped without a result.
#[derive(Clone, Copy, Debug, PartialEq, Eq, Structural)]
pub enum Error {
    OutOfGas,
    BadJumpDestination,
    BadInstruction,
    StackUnderflow,
    OutOfStack,
    /// A frame would have run deeper than the schedule allows.
    OutOfDepth,
    /// A state change was tried below a static frame.
    MutableCallInStaticContext,
    /// The code reverted.
    Reverted,
    /// The state database failed underneath the machine.
    StateDbError(DbError),
}

/// What a frame returns when it ends without an error.
#[derive(Clone, Debug)]
pub struct FinalizationResult {
    /// The gas that was not used.
    pub gas_left: U256,
    /// Whether the frame's state changes are to be kept.
    pub apply_state: bool,
    /// The bytes that the code returned.
    pub return_data: Vec<u8>,
}

} // verus!
