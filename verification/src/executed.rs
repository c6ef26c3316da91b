//! What comes out of executing a transaction.

use crate::abi::{decode_bytes, decode_dynamic_bytes};
use crate::address::AddressWithSpace;
use crate::text::{hex_chars, hex_encode, string_from_utf8};
use crate::observer::ExecTrace;
use crate::substate::LogEntry;
use crate::transaction::Transaction;
use crate::uint::{pow256, U256, U512};
use crate::vm;
use crate::vm::Spec;
use vstd::prelude::*;
use vstd::slice::slice_subrange;
use vstd::string::{StrSliceExecFns, StringExecFns};
use vstd::utf8::{decode_utf8, valid_utf8};

verus! {

/// The record of a transaction that ran, or was charged.
#[derive(Debug, PartialEq, Clone)]
pub struct Executed {
    /// Gas used during execution of the transaction.
    pub gas_used: U256,
    /// Fee that the execution of the transaction costs.
    pub fee: U256,
    /// Gas charged for the transaction.
    pub gas_charged: U256,
    /// The logs that the transaction wrote, in order.
    pub logs: Vec<LogEntry>,
    /// The contracts that the transaction created, in the order in which their creation
    /// ended: one that a constructor creates comes before the one under construction.
    pub contracts_created: Vec<AddressWithSpace>,
    /// The bytes that the transaction returned.
    pub output: Vec<u8>,
    /// The trace of the transaction.
    pub trace: Vec<ExecTrace>,
    /// For a dry run only: an estimate of the gas limit with which the transaction
    /// succeeds.
    pub estimated_gas_limit: Option<U256>,
}

/// [`Executed`] as mathematics.
pub struct ExecutedModel {
    pub gas_used: nat,
    pub fee: nat,
    pub gas_charged: nat,
    pub logs: Seq<LogEntry>,
    pub contracts_created: Seq<AddressWithSpace>,
    pub output: Seq<u8>,
    pub trace: Seq<ExecTrace>,
    pub estimated_gas_limit: Option<nat>,
}

impl View for Executed {
    type V = ExecutedModel;

    open spec fn view(&self) -> ExecutedModel {
        ExecutedModel {
            gas_used: self.gas_used@,
            fee: self.fee@,
            gas_charged: self.gas_charged@,
            logs: self.logs@,
            contracts_created: self.contracts_created@,
            output: self.output@,
            trace: self.trace@,
            estimated_gas_limit: match self.estimated_gas_limit {
                Some(g) => Some(g@),
                None => None,
            },
        }
    }
}

/// Why a transaction cannot be packed now, though it may be later.
#[derive(Clone, Copy, Debug, PartialEq, Eq, Structural)]
pub enum ToRepackError {
    /// The transaction's nonce is ahead of the sender's.
    InvalidNonce {
        /// Nonce expected.
        expected: U256,
        /// Nonce found.
        got: U256,
    },
    /// The sender does not exist yet and nobody pays for the transaction.
    SenderDoesNotExist,
}

/// Why a transaction is to be thrown away.
#[derive(Clone, Copy, Debug, PartialEq, Eq, Structural)]
pub enum TxDropError {
    /// The sender's nonce in the state, then the transaction's nonce, which is behind it.
    OldNonce(U256, U256),
    /// The gas limit does not cover the base gas.
    NotEnoughBaseGas { expected: u64, actual: u64 },
}

/// Why a transaction that was charged did not succeed.
#[derive(Clone, Copy, Debug, PartialEq, Eq, Structural)]
pub enum ExecutionError {
    /// The cost of the transaction, its value and its gas, is above the sender's balance.
    NotEnoughCash {
        /// Minimum required balance.
        required: U512,
        /// Actual balance.
        got: U512,
        /// Actual gas cost: the smaller of the gas fee and the balance.
        actual_gas_cost: U256,
    },
    VmError(vm::Error),
}

/// How the execution of a transaction ended.
#[derive(Debug)]
pub enum ExecutionOutcome {
    /// The transaction is thrown away. Nothing changed.
    NotExecutedDrop(TxDropError),
    /// The transaction is turned down for now. Nothing changed.
    NotExecutedToReconsiderPacking(ToRepackError),
    /// The nonce went up and a fee was charged, but the transaction's effects were not
    /// kept.
    ExecutionErrorBumpNonce(ExecutionError, Executed),
    /// The transaction succeeded and its effects are kept.
    Finished(Executed),
}

/// [`ExecutionOutcome`] as mathematics.
pub enum OutcomeModel {
    NotExecutedDrop(TxDropError),
    NotExecutedToReconsiderPacking(ToRepackError),
    ExecutionErrorBumpNonce(ExecutionError, ExecutedModel),
    Finished(ExecutedModel),
}

impl View for ExecutionOutcome {
    type V = OutcomeModel;

    open spec fn view(&self) -> OutcomeModel {
        match self {
            ExecutionOutcome::NotExecutedDrop(e) => OutcomeModel::NotExecutedDrop(*e),
            ExecutionOutcome::NotExecutedToReconsiderPacking(e) => OutcomeModel::NotExecutedToReconsiderPacking(*e),
            ExecutionOutcome::ExecutionErrorBumpNonce(e, x) => OutcomeModel::ExecutionErrorBumpNonce(*e, x@),
            ExecutionOutcome::Finished(x) => OutcomeModel::Finished(x@),
        }
    }
}

impl OutcomeModel {
    /// Whether the transaction was turned away before anything changed.
    pub open spec fn is_reject(self) -> bool {
        self is NotExecutedDrop || self is NotExecutedToReconsiderPacking
    }
}

impl ExecutionOutcome {
    /// The record of the execution, where the transaction succeeded.
    pub fn successfully_executed(self) -> (r: Option<Executed>)
        ensures
            match r {
                Some(x) => self == ExecutionOutcome::Finished(x),
                None => !(self is Finished),
            },
    {
        match self {
            ExecutionOutcome::Finished(executed) => Some(executed),
            _ => None,
        }
    }
}

impl ExecutedModel {
    /// The record of a transaction whose sender could not pay: `fee` is what was taken.
    /// The gas charged is the fee divided by the gas price, and nothing where the price
    /// is zero.
    pub open spec fn not_enough_balance_fee_charged(
        gas: nat,
        gas_price: nat,
        fee: nat,
        trace: Seq<ExecTrace>,
    ) -> ExecutedModel {
        ExecutedModel {
            gas_used: gas,
            gas_charged: if gas_price == 0 {
                0
            } else {
                fee / gas_price
            },
            fee,
            logs: Seq::empty(),
            contracts_created: Seq::empty(),
            output: Seq::empty(),
            trace,
            estimated_gas_limit: None,
        }
    }

    /// The record of a transaction that failed inside the machine: all its gas is used
    /// and charged. The fee stays at the largest 256-bit number where it would be above.
    pub open spec fn execution_error_fully_charged(gas: nat, gas_price: nat, trace: Seq<ExecTrace>) -> ExecutedModel {
        ExecutedModel {
            gas_used: gas,
            gas_charged: gas,
            fee: saturated(gas * gas_price),
            logs: Seq::empty(),
            contracts_created: Seq::empty(),
            output: Seq::empty(),
            trace,
            estimated_gas_limit: None,
        }
    }
}

/// A number held at the largest 256-bit number where it is above.
pub open spec fn saturated(n: nat) -> nat {
    if n < pow256() {
        n
    } else {
        (pow256() - 1) as nat
    }
}

impl Executed {
    /// The record of a transaction whose sender could not pay in full.
    pub fn not_enough_balance_fee_charged(
        tx: &Transaction,
        fee: &U256,
        trace: Vec<ExecTrace>,
        _spec: &Spec,
    ) -> (r: Executed)
        ensures
            r@ == ExecutedModel::not_enough_balance_fee_charged(tx.gas@, tx.gas_price@, fee@, trace@),
    {
        let gas_charged = match fee.checked_div(&tx.gas_price) {
            Some(q) => q,
            None => U256::zero(),
        };
        Executed {
            gas_used: tx.gas,
            gas_charged,
            fee: *fee,
            logs: Vec::new(),
            contracts_created: Vec::new(),
            output: Vec::new(),
            trace,
            estimated_gas_limit: None,
        }
    }

    /// The record of a transaction that failed inside the machine.
    pub fn execution_error_fully_charged(tx: &Transaction, trace: Vec<ExecTrace>, _spec: &Spec) -> (r: Executed)
        ensures
            r@ == ExecutedModel::execution_error_fully_charged(tx.gas@, tx.gas_price@, trace@),
    {
        Executed {
            gas_used: tx.gas,
            gas_charged: tx.gas,
            fee: tx.gas.saturating_mul(&tx.gas_price),
            logs: Vec::new(),
            contracts_created: Vec::new(),
            output: Vec::new(),
            trace,
            estimated_gas_limit: None,
        }
    }
}

/// The selector that begins the data of a revert with a reason: that of `Error(string)`.
pub open spec fn error_selector() -> Seq<u8> {
    seq![8u8, 195u8, 121u8, 160u8]
}

/// The bytes of the reason in the data of a revert, where the data begins with the
/// selector of `Error(string)` and holds an encoded string after it.
pub open spec fn revert_reason_bytes(output: Seq<u8>) -> Option<Seq<u8>> {
    if output.len() >= 4 && output.subrange(0, 4) == error_selector() {
        decode_dynamic_bytes(output.subrange(4, output.len() as int))
    } else {
        None
    }
}

/// What is shown for the data of a revert. Where the data holds a reason that is valid
/// UTF-8, it is the reason, cut after fifty characters and followed by three dots where
/// it has fifty characters or more. Otherwise it is the data in hexadecimal after `0x`.
pub open spec fn spec_revert_reason(output: Seq<u8>) -> Seq<char> {
    match revert_reason_bytes(output) {
        Some(b) => if valid_utf8(b) {
            let reason = decode_utf8(b);
            if reason.len() < 50 {
                reason
            } else {
                reason.subrange(0, 50) + "..."@
            }
        } else {
            "0x"@ + hex_chars(output)
        },
        None => "0x"@ + hex_chars(output),
    }
}

/// Decodes the reason from the data of a revert, for display.
pub fn revert_reason_decode(output: &[u8]) -> (r: String)
    ensures
        r@ == spec_revert_reason(output@),
{
    let decoded: Option<String> = if output.len() < 4 {
        None
    } else if output[0] != 8 || output[1] != 195 || output[2] != 121 || output[3] != 160 {
        assert(output@.subrange(0, 4)[0] == output@[0]);
        assert(output@.subrange(0, 4)[1] == output@[1]);
        assert(output@.subrange(0, 4)[2] == output@[2]);
        assert(output@.subrange(0, 4)[3] == output@[3]);
        None
    } else {
        assert(output@.subrange(0, 4) =~= error_selector());
        match decode_bytes(slice_subrange(output, 4, output.len())) {
            Some(b) => string_from_utf8(b),
            None => None,
        }
    };
    match decoded {
        Some(reason) => {
            if reason.as_str().unicode_len() < 50 {
                reason
            } else {
                String::from_str(reason.as_str().substring_char(0, 50)).concat("...")
            }
        },
        None => String::from_str("0x").concat(hex_encode(output).as_str()),
    }
}

} // verus!
