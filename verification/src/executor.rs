//! The transaction executor: what is checked and charged before the virtual machine
//! runs, and what is settled after it.

use crate::abi::{arguments_fit, encode_arguments, encode_string_and_bytes_array, encoded_len, items_view};
use crate::address::{Address, AddressWithSpace, Space};
use crate::hash::{keccak256, keccak_digest};
use crate::address_set::AddressSet;
use crate::bytes::copy_bytes;
use crate::executed::{
    saturated, Executed, ExecutedModel, ExecutionError, ExecutionOutcome, OutcomeModel, ToRepackError, TxDropError,
};
use crate::frame::{
    contract_address, spec_contract_address, CallCreateFrame, FrameStack, FrameStackModel, FrameStackOutput,
};
use crate::statedb::DbError;
use crate::observer::{AddressPocket, ExecTrace, MultiObservers};
use crate::state::{touched_after, State, WorldState};
use crate::substate::{Substate, SubstateModel};
use crate::transaction::{Action, Transaction};
use crate::uint::{pow256, U256, U512};
use crate::vm::{
    ActionParams, ActionParamsModel, ActionValue, CallType, CreateContractAddress, CreateType, Env, Error,
    FinalizationResult, ParamsType, Spec,
};
use vstd::prelude::*;
use vstd::string::StringExecFns;
use vstd::utf8::encode_utf8;

verus! {

/// The gas that one byte of transaction data costs.
pub open spec fn byte_gas(b: u8, spec: Spec) -> nat {
    if b == 0 {
        spec.tx_data_zero_gas as nat
    } else {
        spec.tx_data_non_zero_gas as nat
    }
}

/// The gas that the data of a transaction costs: the sum over its bytes.
pub open spec fn data_gas(data: Seq<u8>, spec: Spec) -> nat
    decreases data.len(),
{
    if data.len() == 0 {
        0
    } else {
        data_gas(data.drop_last(), spec) + byte_gas(data.last(), spec)
    }
}

/// The gas that a transaction costs before any code runs.
pub open spec fn base_gas(is_create: bool, data: Seq<u8>, spec: Spec) -> nat {
    (if is_create {
        spec.tx_create_gas as nat
    } else {
        spec.tx_gas as nat
    }) + data_gas(data, spec)
}

/// The data of a prefix costs no more than the whole.
pub proof fn lemma_data_gas_monotonic(data: Seq<u8>, i: int, spec: Spec)
    requires
        0 <= i <= data.len(),
    ensures
        data_gas(data.subrange(0, i), spec) <= data_gas(data, spec),
    decreases data.len() - i,
{
    if i < data.len() {
        lemma_data_gas_monotonic(data, i + 1, spec);
        assert(data.subrange(0, i + 1).drop_last() =~= data.subrange(0, i));
    } else {
        assert(data.subrange(0, i) =~= data);
    }
}

/// The base gas of a transaction, or `None` where it does not fit in 64 bits.
pub fn checked_gas_required_for(is_create: bool, data: &[u8], spec: &Spec) -> (r: Option<u64>)
    ensures
        base_gas(is_create, data@, *spec) <= u64::MAX ==> r == Some(base_gas(is_create, data@, *spec) as u64),
        base_gas(is_create, data@, *spec) > u64::MAX ==> r is None,
{
    let mut g: u64 = if is_create {
        spec.tx_create_gas as u64
    } else {
        spec.tx_gas as u64
    };
    let mut i: usize = 0;
    assert(data@.subrange(0, 0) =~= Seq::<u8>::empty());
    while i < data.len()
        invariant
            i <= data.len(),
            g as nat == base_gas(is_create, data@.subrange(0, i as int), *spec),
        decreases data.len() - i,
    {
        let step: u64 = if data[i] == 0 {
            spec.tx_data_zero_gas as u64
        } else {
            spec.tx_data_non_zero_gas as u64
        };
        assert(data@.subrange(0, i + 1).drop_last() =~= data@.subrange(0, i as int));
        if g > u64::MAX - step {
            proof {
                lemma_data_gas_monotonic(data@, i + 1, *spec);
            }
            return None;
        }
        g = g + step;
        i += 1;
    }
    assert(data@.subrange(0, i as int) =~= data@);
    Some(g)
}

/// The base gas of a transaction: what it costs before any code runs.
pub fn gas_required_for(is_create: bool, data: &[u8], spec: &Spec) -> (r: u64)
    requires
        base_gas(is_create, data@, *spec) <= u64::MAX,
    ensures
        r as nat == base_gas(is_create, data@, *spec),
{
    checked_gas_required_for(is_create, data, spec).unwrap()
}

/// What is checked before a transaction runs.
#[derive(Clone, Copy, Debug, PartialEq, Eq, Structural)]
pub struct TransactCheckSettings {
    /// Whether gas is paid for. A run that charges nothing takes the gas cost as zero.
    pub charge_gas: bool,
    /// Whether the transaction is applied for real, and not run to estimate its gas. Only
    /// a real run insists that a sender who cannot pay exists.
    pub real_execution: bool,
}

/// How a transaction is to be run.
#[derive(Debug)]
pub struct TransactOptions {
    pub observer: MultiObservers,
    pub check_settings: TransactCheckSettings,
}

/// What the checks before execution come to.
#[derive(Debug)]
pub enum PreCheckResult {
    /// The transaction is to run: the root frame, and the stack to enter it on.
    Pass { top_frame: CallCreateFrame, frame_stack: FrameStack },
    /// The transaction does not run: this is its outcome.
    Fail(ExecutionOutcome),
}

/// The verdict of the checks before execution.
#[derive(Clone, Copy, Debug, PartialEq, Eq, Structural)]
pub enum PreVerdict {
    OldNonce,
    InvalidNonce,
    NotEnoughBaseGas,
    SenderDoesNotExist,
    NotEnoughCash,
    Pass,
}

/// The cost of a transaction's gas: limit times price, and nothing where gas is not
/// charged.
pub open spec fn gas_cost(tx: Transaction, settings: TransactCheckSettings) -> nat {
    if settings.charge_gas {
        tx.gas@ * tx.gas_price@
    } else {
        0
    }
}

/// What the sender has to hold: the transaction's value and the cost of its gas.
pub open spec fn total_cost(tx: Transaction, settings: TransactCheckSettings) -> nat {
    tx.value@ + gas_cost(tx, settings)
}

/// The checks before execution, in their order: the nonce, the base gas, the balance.
pub open spec fn pre_verdict(ws: WorldState, tx: Transaction, settings: TransactCheckSettings, spec: Spec) -> PreVerdict {
    if tx.nonce@ < ws.nonce(tx.sender) {
        PreVerdict::OldNonce
    } else if tx.nonce@ > ws.nonce(tx.sender) {
        PreVerdict::InvalidNonce
    } else if tx.gas@ < base_gas(tx.is_create(), tx.data@, spec) {
        PreVerdict::NotEnoughBaseGas
    } else if ws.balance(tx.sender) < total_cost(tx, settings) {
        if !ws.has_account(tx.sender) && settings.real_execution {
            PreVerdict::SenderDoesNotExist
        } else {
            PreVerdict::NotEnoughCash
        }
    } else {
        PreVerdict::Pass
    }
}

/// What is taken from the sender before execution: the whole cost of the gas where the
/// sender can pay for the transaction, as much of it as the balance holds where not, and
/// nothing where the transaction is turned away.
pub open spec fn charged_in_advance(ws: WorldState, tx: Transaction, settings: TransactCheckSettings, spec: Spec) -> nat {
    match pre_verdict(ws, tx, settings, spec) {
        PreVerdict::Pass => gas_cost(tx, settings),
        PreVerdict::NotEnoughCash => if gas_cost(tx, settings) <= ws.balance(tx.sender) {
            gas_cost(tx, settings)
        } else {
            ws.balance(tx.sender)
        },
        _ => 0,
    }
}

/// Whether the checks before execution change the state: they do unless the transaction
/// is turned away.
pub open spec fn pre_bumps_nonce(ws: WorldState, tx: Transaction, settings: TransactCheckSettings, spec: Spec) -> bool {
    pre_verdict(ws, tx, settings, spec) is Pass || pre_verdict(ws, tx, settings, spec) is NotEnoughCash
}

/// The state after the checks before execution. A transaction that is turned away leaves
/// it as it was; any other has the sender's nonce raised and the advance taken.
pub open spec fn state_after_pre(ws: WorldState, tx: Transaction, settings: TransactCheckSettings, spec: Spec) -> WorldState {
    if pre_bumps_nonce(ws, tx, settings, spec) {
        ws.inc_nonce(tx.sender, spec.account_start_nonce@).sub_balance(
            tx.sender,
            charged_in_advance(ws, tx, settings, spec),
        )
    } else {
        ws
    }
}

/// The movement of an advance from the sender's balance to the gas payment.
pub open spec fn advance_record(tx: Transaction, charged: nat) -> ExecTrace {
    ExecTrace::InternalTransfer {
        from: AddressPocket::Balance(tx.sender),
        to: AddressPocket::GasPayment,
        value: U256::from_nat(charged),
    }
}

/// What a state tracer that rides along has recorded once `record` was added; nothing
/// where there is none.
pub open spec fn trace_with(observer: MultiObservers, record: ExecTrace) -> Seq<ExecTrace> {
    if observer.tracer is Some {
        observer.trace().push(record)
    } else {
        Seq::empty()
    }
}

/// The outcome of a transaction that does not pass the checks before execution.
pub open spec fn pre_fail_outcome(
    observer: MultiObservers,
    ws: WorldState,
    tx: Transaction,
    settings: TransactCheckSettings,
    spec: Spec,
) -> OutcomeModel
    recommends
        !(pre_verdict(ws, tx, settings, spec) is Pass),
{
    match pre_verdict(ws, tx, settings, spec) {
        PreVerdict::OldNonce => OutcomeModel::NotExecutedDrop(
            TxDropError::OldNonce(U256::from_nat(ws.nonce(tx.sender)), tx.nonce),
        ),
        PreVerdict::InvalidNonce => OutcomeModel::NotExecutedToReconsiderPacking(
            ToRepackError::InvalidNonce { expected: U256::from_nat(ws.nonce(tx.sender)), got: tx.nonce },
        ),
        PreVerdict::NotEnoughBaseGas => OutcomeModel::NotExecutedDrop(
            TxDropError::NotEnoughBaseGas {
                expected: base_gas(tx.is_create(), tx.data@, spec) as u64,
                actual: tx.gas@ as u64,
            },
        ),
        PreVerdict::SenderDoesNotExist => OutcomeModel::NotExecutedToReconsiderPacking(
            ToRepackError::SenderDoesNotExist,
        ),
        _ => {
            let charged = charged_in_advance(ws, tx, settings, spec);
            OutcomeModel::ExecutionErrorBumpNonce(
                ExecutionError::NotEnoughCash {
                    required: U512::from_nat(total_cost(tx, settings)),
                    got: U512::from_nat(ws.balance(tx.sender)),
                    actual_gas_cost: U256::from_nat(charged),
                },
                ExecutedModel::not_enough_balance_fee_charged(
                    tx.gas@,
                    tx.gas_price@,
                    charged,
                    trace_with(observer, advance_record(tx, charged)),
                ),
            )
        },
    }
}

/// What the root frame of a transaction is given to run. `ws` is the state after the
/// advance was taken.
pub open spec fn root_params(ws: WorldState, tx: Transaction, spec: Spec) -> ActionParamsModel {
    let init_gas = (tx.gas@ - base_gas(tx.is_create(), tx.data@, spec)) as nat;
    match tx.action {
        Action::Create => {
            let new_address = spec_contract_address(tx.sender, tx.nonce);
            ActionParamsModel {
                space: tx.sender.space,
                code_address: new_address.address,
                code_hash: None,
                address: new_address.address,
                sender: tx.sender.address,
                original_sender: tx.sender.address,
                gas: init_gas,
                gas_price: tx.gas_price@,
                value: ActionValue::Transfer(tx.value),
                code: Some(tx.data@),
                data: None,
                call_type: CallType::NoCall,
                create_type: CreateType::CREATE,
                params_type: ParamsType::Embedded,
            }
        },
        Action::Call(target) => {
            let callee = AddressWithSpace { address: target, space: tx.sender.space };
            ActionParamsModel {
                space: tx.sender.space,
                code_address: target,
                code_hash: ws.code_hash(callee),
                address: target,
                sender: tx.sender.address,
                original_sender: tx.sender.address,
                gas: init_gas,
                gas_price: tx.gas_price@,
                value: ActionValue::Transfer(tx.value),
                code: ws.code(callee),
                data: Some(tx.data@),
                call_type: CallType::Call,
                create_type: CreateType::NoCreate,
                params_type: ParamsType::Separate,
            }
        },
    }
}

/// The product of two 256-bit numbers, and a third added, fits in 512 bits.
pub proof fn lemma_cost_fits(value: nat, gas: nat, price: nat)
    requires
        value < pow256(),
        gas < pow256(),
        price < pow256(),
    ensures
        value + gas * price < pow256() * pow256(),
{
    let p = pow256();
    assert(gas * price <= (p - 1) * (p - 1)) by (nonlinear_arith)
        requires
            gas <= p - 1,
            price <= p - 1,
            p >= 1,
    ;
    assert((p - 1) * (p - 1) + p - 1 < p * p) by (nonlinear_arith)
        requires
            p >= 2,
    ;
}

/// The sum of the balances that the accounts of a list hold in a state.
pub open spec fn burned(ws: WorldState, order: Seq<AddressWithSpace>) -> nat
    decreases order.len(),
{
    if order.len() == 0 {
        0
    } else {
        burned(ws, order.drop_last()) + ws.balance(order.last())
    }
}

/// The records of the destruction of the accounts of a list: the balance of each moves
/// to where value is burned.
pub open spec fn kill_records(ws: WorldState, order: Seq<AddressWithSpace>) -> Seq<ExecTrace> {
    Seq::new(
        order.len(),
        |i: int|
            ExecTrace::InternalTransfer {
                from: AddressPocket::Balance(order[i]),
                to: AddressPocket::MintBurn,
                value: U256::from_nat(ws.balance(order[i])),
            },
    )
}

/// The state after a set of accounts destroyed themselves: the accounts are gone, and
/// what they held has left the issued supply.
pub open spec fn state_after_kill(ws: WorldState, suicides: Set<AddressWithSpace>, burned: nat) -> WorldState {
    WorldState { accounts: ws.accounts.remove_keys(suicides), ..ws.subtract_total_issued(burned) }
}

/// The gas that the root frame left over: what it returned, and nothing where it failed.
pub open spec fn gas_left_of(result: Result<FinalizationResult, Error>) -> nat {
    match result {
        Ok(r) => r.gas_left@,
        Err(_) => 0,
    }
}

/// Whether a transaction was given so much gas that three quarters of its limit are
/// charged: three times what is left is no less than what was used.
pub open spec fn charges_three_quarters(gas: nat, gas_left: nat) -> bool {
    3 * gas_left >= gas - gas_left
}

/// The gas that is given back: a quarter of the limit, rounded down, where three quarters
/// are charged, and what is left otherwise.
pub open spec fn gas_refunded(gas: nat, gas_left: nat) -> nat {
    if charges_three_quarters(gas, gas_left) {
        gas / 4
    } else {
        gas_left
    }
}

/// The gas that is charged: the limit less what is given back.
pub open spec fn gas_charged(gas: nat, gas_left: nat) -> nat {
    (gas - gas_refunded(gas, gas_left)) as nat
}

/// What is credited back to the sender after execution.
pub open spec fn refund_value(tx: Transaction, gas_left: nat) -> nat {
    saturated(gas_refunded(tx.gas@, gas_left) * tx.gas_price@)
}

/// The estimate of the gas limit: seven sixths of what the gas manager found, rounded
/// down, and the base gas; nothing where no gas manager rode along.
pub open spec fn estimated_gas_limit(observer: MultiObservers, base_gas_required: u64) -> Option<nat> {
    match observer.gas_man {
        Some(g) => Some(g.required@ * 7 / 6 + base_gas_required as nat),
        None => None,
    }
}

/// The state after the refund was credited to the sender.
pub open spec fn state_after_refund(ws: WorldState, tx: Transaction, gas_left: nat, spec: Spec) -> WorldState {
    ws.add_balance(tx.sender, refund_value(tx, gas_left), spec.account_start_nonce@)
}

/// The state after execution was settled: the refund is credited, then the accounts that
/// destroyed themselves are removed.
pub open spec fn state_after_post(ws: WorldState, tx: Transaction, output: FrameStackOutput, spec: Spec) -> WorldState {
    let refunded = state_after_refund(ws, tx, gas_left_of(output.result), spec);
    state_after_kill(refunded, output.substate.suicides@, burned(refunded, output.substate.suicides.order()))
}

/// The trace of a transaction that ran: where a state tracer rode along, what it had
/// recorded, then the refund, then the destruction of accounts; nothing where there was
/// none.
pub open spec fn post_trace(ws: WorldState, tx: Transaction, output: FrameStackOutput, spec: Spec) -> Seq<ExecTrace> {
    let gas_left = gas_left_of(output.result);
    if output.observer.tracer is Some {
        output.observer.trace().push(
            ExecTrace::InternalTransfer {
                from: AddressPocket::GasPayment,
                to: AddressPocket::Balance(tx.sender),
                value: U256::from_nat(refund_value(tx, gas_left)),
            },
        ) + kill_records(state_after_refund(ws, tx, gas_left, spec), output.substate.suicides.order())
    } else {
        Seq::empty()
    }
}

/// The outcome of a transaction that ran, unless the state database failed underneath
/// the machine.
///
/// A failure of the machine charges all the gas and records nothing else. Otherwise the
/// record holds the gas used and charged, the fee, what the root frame returned and the
/// estimate of the gas limit; the logs and the created contracts are in it only where the
/// root frame's effects are kept. Where they are not, the transaction counts as reverted.
pub open spec fn post_outcome(ws: WorldState, tx: Transaction, output: FrameStackOutput, spec: Spec) -> OutcomeModel
    recommends
        !(output.result matches Err(Error::StateDbError(_))),
{
    let trace = post_trace(ws, tx, output, spec);
    match output.result {
        Err(e) => OutcomeModel::ExecutionErrorBumpNonce(
            ExecutionError::VmError(e),
            ExecutedModel::execution_error_fully_charged(tx.gas@, tx.gas_price@, trace),
        ),
        Ok(r) => {
            let executed = ExecutedModel {
                gas_used: (tx.gas@ - r.gas_left@) as nat,
                gas_charged: gas_charged(tx.gas@, r.gas_left@),
                fee: saturated(gas_charged(tx.gas@, r.gas_left@) * tx.gas_price@),
                logs: if r.apply_state {
                    output.substate.logs@
                } else {
                    Seq::empty()
                },
                contracts_created: if r.apply_state {
                    output.substate.contracts_created@
                } else {
                    Seq::empty()
                },
                output: r.return_data@,
                trace,
                estimated_gas_limit: estimated_gas_limit(output.observer, output.base_gas_required),
            };
            if r.apply_state {
                OutcomeModel::Finished(executed)
            } else {
                OutcomeModel::ExecutionErrorBumpNonce(ExecutionError::VmError(Error::Reverted), executed)
            }
        },
    }
}

/// The address of the built-in contract through which calls cross between spaces.
pub open spec fn spec_cross_space_contract_address() -> Address {
    Address { hi: 0x0888_0000, lo: 6 }
}

/// The account of the cross-space contract in the Ethereum space.
pub open spec fn spec_cross_space_account() -> AddressWithSpace {
    AddressWithSpace { address: spec_cross_space_contract_address(), space: Space::Ethereum }
}

/// The address of the built-in contract through which calls cross between spaces:
/// `0x0888000000000000000000000000000000000006`.
pub fn cross_space_contract_address() -> (r: Address)
    ensures
        r == spec_cross_space_contract_address(),
{
    Address { hi: 0x0888_0000, lo: 6 }
}

/// A call that the cross-space contract makes into the Ethereum space.
#[derive(Debug)]
pub struct CrossVMParams {
    pub receiver: Address,
    /// The function to call; empty for a call without data.
    pub function_name: String,
    pub gas: U256,
    pub gas_price: U256,
    pub value: U256,
    /// The parameters, each already encoded.
    pub evm_params: Vec<Vec<u8>>,
    pub caller_info: String,
}

/// What a cross-space call hands back: the caller folds the substate into its own.
#[derive(Debug)]
pub struct CrossVMReturn {
    pub substate: Substate,
    pub result: Result<FinalizationResult, Error>,
}

impl CrossVMReturn {
    /// What a cross-space call hands back of what the frame stack gave.
    pub fn from_output(output: FrameStackOutput) -> (r: CrossVMReturn)
        ensures
            r.substate == output.substate,
            r.result == output.result,
    {
        let FrameStackOutput { substate, result, observer: _, base_gas_required: _ } = output;
        CrossVMReturn { substate, result }
    }
}

/// The first four bytes of a digest, then the encoded arguments.
pub fn selector_and_arguments(digest: &[u8], arguments: Vec<u8>) -> (r: Vec<u8>)
    requires
        digest.len() >= 4,
    ensures
        r@ == digest@.subrange(0, 4) + arguments@,
{
    let mut out: Vec<u8> = Vec::new();
    out.push(digest[0]);
    out.push(digest[1]);
    out.push(digest[2]);
    out.push(digest[3]);
    assert(out@ =~= digest@.subrange(0, 4));
    let mut arguments = arguments;
    out.append(&mut arguments);
    out
}

impl CrossVMParams {
    /// The signature of the function to call: its name, then `(string,bytes[])`.
    pub open spec fn signature(&self) -> Seq<u8> {
        encode_utf8(self.function_name@ + "(string,bytes[])"@)
    }

    /// The encoded arguments of the call: who calls, and the parameters.
    pub open spec fn arguments(&self) -> Seq<u8> {
        encode_string_and_bytes_array(encode_utf8(self.caller_info@), items_view(self.evm_params@))
    }

    /// The data of the call: nothing where no function is named; else the first four
    /// bytes of the Keccak-256 digest of the signature, then the encoded arguments.
    pub open spec fn spec_data(&self) -> Seq<u8> {
        if self.function_name@.len() == 0 {
            Seq::empty()
        } else {
            keccak256(self.signature()).subrange(0, 4) + self.arguments()
        }
    }

    /// Whether the arguments can be encoded: their encoding is not longer than a 64-bit
    /// number can tell.
    pub open spec fn encodable(&self) -> bool {
        self.function_name@.len() > 0 ==> encoded_len(encode_utf8(self.caller_info@), items_view(self.evm_params@))
            <= u64::MAX
    }

    /// Whether the arguments can be encoded.
    pub fn is_encodable(&self) -> (r: bool)
        ensures
            r == self.encodable(),
    {
        self.function_name.as_str().is_empty() || arguments_fit(
            self.caller_info.as_str().as_bytes(),
            &self.evm_params,
        )
    }

    /// The data of the call.
    pub fn data(&self) -> (r: Vec<u8>)
        requires
            self.encodable(),
        ensures
            r@ == self.spec_data(),
    {
        if self.function_name.as_str().is_empty() {
            return Vec::new();
        }
        let func_sig = self.function_name.clone().concat("(string,bytes[])");
        let func_bytes = keccak_digest(func_sig.as_str().as_bytes());
        let abi_encode = encode_arguments(self.caller_info.as_str().as_bytes(), &self.evm_params);
        selector_and_arguments(func_bytes.as_slice(), abi_encode)
    }

    /// What the root frame of the call is given to run. `ws` is the state in which the
    /// receiver's code is looked up.
    pub open spec fn root_params(&self, ws: WorldState) -> ActionParamsModel {
        let callee = AddressWithSpace { address: self.receiver, space: Space::Ethereum };
        ActionParamsModel {
            space: Space::Ethereum,
            code_address: self.receiver,
            code_hash: ws.code_hash(callee),
            address: self.receiver,
            sender: spec_cross_space_contract_address(),
            original_sender: Address { hi: 0, lo: 0 },
            gas: self.gas@,
            gas_price: self.gas_price@,
            value: ActionValue::Transfer(self.value),
            code: ws.code(callee),
            data: Some(self.spec_data()),
            call_type: CallType::Call,
            create_type: CreateType::NoCreate,
            params_type: ParamsType::Separate,
        }
    }
}

/// How a transaction ends, given what the virtual machine made of it: `ws_run` is the
/// state and `output` what the frame stack handed back when the root frame had returned.
/// A transaction that does not pass the checks before execution ends with their outcome,
/// whatever the machine would have done.
pub open spec fn transact_outcome(
    ws: WorldState,
    tx: Transaction,
    options: TransactOptions,
    spec: Spec,
    ws_run: WorldState,
    output: FrameStackOutput,
) -> OutcomeModel
    recommends
        !(output.result matches Err(Error::StateDbError(_))),
{
    if pre_verdict(ws, tx, options.check_settings, spec) is Pass {
        post_outcome(ws_run, tx, output, spec)
    } else {
        pre_fail_outcome(options.observer, ws, tx, options.check_settings, spec)
    }
}

/// The state in which a transaction ends, given what the virtual machine made of it.
pub open spec fn transact_state(
    ws: WorldState,
    tx: Transaction,
    options: TransactOptions,
    spec: Spec,
    ws_run: WorldState,
    output: FrameStackOutput,
) -> WorldState {
    if pre_verdict(ws, tx, options.check_settings, spec) is Pass {
        state_after_post(ws_run, tx, output, spec)
    } else {
        state_after_pre(ws, tx, options.check_settings, spec)
    }
}

/// Execution is deterministic: two states that hold the same accounts and the same
/// issued supply, however they are laid out in memory, give the same verdict, the same
/// state and the same outcome before the machine runs, and, once the machine has made the
/// same of both, the same state and the same outcome after it.
pub proof fn lemma_transact_deterministic(
    a: State,
    b: State,
    tx: Transaction,
    options: TransactOptions,
    spec: Spec,
    a_run: State,
    b_run: State,
    output: FrameStackOutput,
)
    requires
        a@ == b@,
        a_run@ == b_run@,
    ensures
        pre_verdict(a@, tx, options.check_settings, spec) == pre_verdict(b@, tx, options.check_settings, spec),
        state_after_pre(a@, tx, options.check_settings, spec) == state_after_pre(
            b@,
            tx,
            options.check_settings,
            spec,
        ),
        transact_state(a@, tx, options, spec, a_run@, output) == transact_state(
            b@,
            tx,
            options,
            spec,
            b_run@,
            output,
        ),
        transact_outcome(a@, tx, options, spec, a_run@, output) == transact_outcome(
            b@,
            tx,
            options,
            spec,
            b_run@,
            output,
        ),
{
}

/// The checks before execution raise the sender's nonce by exactly one, unless they turn
/// the transaction away: then the nonce stays. The outcome is one of the two rejections
/// exactly when the transaction is turned away.
///
/// A sender that does not exist is created with the start nonce of the schedule; the
/// nonce read before was zero. The statement leaves out the schedules with another start
/// nonce for such a sender.
pub proof fn lemma_pre_nonce(ws: WorldState, tx: Transaction, options: TransactOptions, spec: Spec)
    requires
        ws.has_account(tx.sender) || spec.account_start_nonce@ == 0,
    ensures
        pre_bumps_nonce(ws, tx, options.check_settings, spec) ==> state_after_pre(
            ws,
            tx,
            options.check_settings,
            spec,
        ).nonce(tx.sender) == ws.nonce(tx.sender) + 1,
        !pre_bumps_nonce(ws, tx, options.check_settings, spec) ==> state_after_pre(
            ws,
            tx,
            options.check_settings,
            spec,
        ) == ws,
        !(pre_verdict(ws, tx, options.check_settings, spec) is Pass) ==> (pre_fail_outcome(
            options.observer,
            ws,
            tx,
            options.check_settings,
            spec,
        ).is_reject() <==> !pre_bumps_nonce(ws, tx, options.check_settings, spec)),
{
}

/// Settling a transaction leaves the sender's nonce as it is, provided the sender is not
/// among the accounts that destroyed themselves (and, where the sender does not exist,
/// the schedule's start nonce is zero).
pub proof fn lemma_post_nonce(ws: WorldState, tx: Transaction, output: FrameStackOutput, spec: Spec)
    requires
        !output.substate.suicides@.contains(tx.sender),
        ws.has_account(tx.sender) || spec.account_start_nonce@ == 0,
    ensures
        state_after_post(ws, tx, output, spec).nonce(tx.sender) == ws.nonce(tx.sender),
{
}

/// Over a whole transaction the sender's nonce goes up by one, or stays where the
/// transaction was turned away before execution, provided that the machine left the
/// sender's nonce and existence alone and the sender did not destroy itself.
pub proof fn lemma_nonce_monotonic(
    ws: WorldState,
    tx: Transaction,
    options: TransactOptions,
    spec: Spec,
    ws_run: WorldState,
    output: FrameStackOutput,
)
    requires
        ws.has_account(tx.sender) || spec.account_start_nonce@ == 0,
        ws_run.nonce(tx.sender) == state_after_pre(ws, tx, options.check_settings, spec).nonce(tx.sender),
        ws_run.has_account(tx.sender) == state_after_pre(ws, tx, options.check_settings, spec).has_account(
            tx.sender,
        ),
        !output.substate.suicides@.contains(tx.sender),
        !(output.result matches Err(Error::StateDbError(_))),
    ensures
        transact_state(ws, tx, options, spec, ws_run, output).nonce(tx.sender) == if transact_outcome(
            ws,
            tx,
            options,
            spec,
            ws_run,
            output,
        ).is_reject() {
            ws.nonce(tx.sender)
        } else {
            ws.nonce(tx.sender) + 1
        },
{
    lemma_pre_nonce(ws, tx, options, spec);
    if pre_verdict(ws, tx, options.check_settings, spec) is Pass {
        lemma_post_nonce(ws_run, tx, output, spec);
    }
}

/// The gas charged is never above the limit. Where three quarters are charged, it is
/// three quarters of the limit, rounded up.
pub proof fn lemma_refund_bound(gas: nat, gas_left: nat)
    requires
        gas_left <= gas,
    ensures
        gas_charged(gas, gas_left) <= gas,
        gas_charged(gas, gas_left) + gas_refunded(gas, gas_left) == gas,
        charges_three_quarters(gas, gas_left) ==> gas_charged(gas, gas_left) == (3 * gas + 3) / 4,
        charges_three_quarters(gas, gas_left) ==> 4 * gas_charged(gas, gas_left) >= 3 * gas,
        !charges_three_quarters(gas, gas_left) ==> gas_charged(gas, gas_left) == gas - gas_left,
{
}

/// Where the gas was paid for in advance, the fee and the refund make up the advance:
/// what stays with the gas payment is exactly the fee.
pub proof fn lemma_fee_and_refund(tx: Transaction, settings: TransactCheckSettings, gas_left: nat)
    requires
        settings.charge_gas,
        gas_left <= tx.gas@,
        tx.gas@ * tx.gas_price@ < pow256(),
    ensures
        saturated(gas_charged(tx.gas@, gas_left) * tx.gas_price@) == gas_charged(tx.gas@, gas_left)
            * tx.gas_price@,
        refund_value(tx, gas_left) == gas_refunded(tx.gas@, gas_left) * tx.gas_price@,
        gas_cost(tx, settings) == gas_charged(tx.gas@, gas_left) * tx.gas_price@ + refund_value(tx, gas_left),
{
    lemma_refund_bound(tx.gas@, gas_left);
    let c = gas_charged(tx.gas@, gas_left);
    let r = gas_refunded(tx.gas@, gas_left);
    let g = tx.gas@;
    let p = tx.gas_price@;
    assert(c * p + r * p == g * p) by (nonlinear_arith)
        requires
            c + r == g,
    ;
    assert(c * p >= 0 && r * p >= 0) by (nonlinear_arith)
        requires
            c >= 0,
            r >= 0,
            p >= 0,
    ;
}

/// Value is conserved over a transaction that passes the checks before execution and
/// pays for its gas: if the machine leaves the sum of all balances as it found it, then
/// the sum in the end, what was burned with the accounts that destroyed themselves, and
/// the fee make up the sum at the start. The premises are what the executor's functions
/// ensure of the sums before and after them; the sender's balance is a 256-bit number, as
/// every balance of a state is.
pub proof fn lemma_value_conserved(
    ws: WorldState,
    tx: Transaction,
    settings: TransactCheckSettings,
    spec: Spec,
    gas_left: nat,
    burned: nat,
    total_start: nat,
    total_charged: nat,
    total_run: nat,
    total_end: nat,
)
    requires
        pre_verdict(ws, tx, settings, spec) is Pass,
        ws.balance(tx.sender) < pow256(),
        settings.charge_gas,
        gas_left <= tx.gas@,
        total_charged + charged_in_advance(ws, tx, settings, spec) == total_start,
        total_run == total_charged,
        total_end + burned == total_run + refund_value(tx, gas_left),
    ensures
        total_end + burned + saturated(gas_charged(tx.gas@, gas_left) * tx.gas_price@) == total_start,
{
    assert(gas_cost(tx, settings) < pow256());
    lemma_fee_and_refund(tx, settings, gas_left);
}

/// An outcome that bumps the nonce for an error records no log and no created contract.
pub proof fn lemma_error_keeps_nothing(
    ws: WorldState,
    tx: Transaction,
    options: TransactOptions,
    spec: Spec,
    ws_run: WorldState,
    output: FrameStackOutput,
)
    ensures
        transact_outcome(ws, tx, options, spec, ws_run, output) matches OutcomeModel::ExecutionErrorBumpNonce(
            _,
            executed,
        ) ==> executed.logs.len() == 0 && executed.contracts_created.len() == 0,
        pre_fail_outcome(
            options.observer,
            ws,
            tx,
            options.check_settings,
            spec,
        ) matches OutcomeModel::ExecutionErrorBumpNonce(_, executed) ==> executed.logs.len() == 0
            && executed.contracts_created.len() == 0,
        post_outcome(ws_run, tx, output, spec) matches OutcomeModel::ExecutionErrorBumpNonce(_, executed)
            ==> executed.logs.len() == 0 && executed.contracts_created.len() == 0,
{
}

/// Transaction executor.
///
/// The executor borrows the state for as long as it lives. In the contracts of its
/// methods `final(self).state@` is the state after the call; the clause on
/// `final(final(self).state)` says that the executor goes on borrowing the same state, so
/// that whoever lent it sees every change once the executor is gone.
pub struct TXExecutor<'a> {
    pub state: &'a mut State,
    pub env: &'a Env,
    pub spec: &'a Spec,
}

impl<'a> TXExecutor<'a> {
    /// Basic constructor.
    pub fn new(state: &'a mut State, env: &'a Env, spec: &'a Spec) -> (r: Self)
        ensures
            r.env == env,
            r.spec == spec,
            *r.state == *old(state),
            *final(r.state) == *final(state),
    {
        TXExecutor { state, env, spec }
    }

    /// The state that the executor works on.
    pub open spec fn world(&self) -> WorldState {
        self.state@
    }

    /// The verdict of the checks before execution, with nothing changed.
    pub fn pre_check(&self, tx: &Transaction, settings: TransactCheckSettings) -> (r: PreVerdict)
        requires
            base_gas(tx.is_create(), tx.data@, *self.spec) <= u64::MAX,
        ensures
            r == pre_verdict(self.world(), *tx, settings, *self.spec),
    {
        let nonce = self.state.nonce(&tx.sender);
        if tx.nonce.lt(&nonce) {
            return PreVerdict::OldNonce;
        }
        if nonce.lt(&tx.nonce) {
            return PreVerdict::InvalidNonce;
        }
        let is_create = match tx.action {
            Action::Create => true,
            Action::Call(_) => false,
        };
        let base_gas_required = gas_required_for(is_create, tx.data.as_slice(), self.spec);
        if tx.gas.lt(&U256::from_u64(base_gas_required)) {
            return PreVerdict::NotEnoughBaseGas;
        }
        let gas_cost = if settings.charge_gas {
            tx.gas.full_mul(&tx.gas_price)
        } else {
            U512::from_u256(&U256::zero())
        };
        proof {
            lemma_cost_fits(tx.value@, tx.gas@, tx.gas_price@);
        }
        let total_cost = U512::from_u256(&tx.value).checked_add(&gas_cost).unwrap();
        if U512::from_u256(&self.state.balance(&tx.sender)).lt(&total_cost) {
            if !self.state.account_exists(&tx.sender) && settings.real_execution {
                PreVerdict::SenderDoesNotExist
            } else {
                PreVerdict::NotEnoughCash
            }
        } else {
            PreVerdict::Pass
        }
    }

    /// Whether `transact_preprocessing` can take the transaction: its base gas fits in 64
    /// bits, and the sender's nonce can be raised where it is to be raised.
    pub fn preprocessing_admits(&self, tx: &Transaction, settings: TransactCheckSettings) -> (r: bool)
        ensures
            r == (base_gas(tx.is_create(), tx.data@, *self.spec) <= u64::MAX && (pre_bumps_nonce(
                self.world(),
                *tx,
                settings,
                *self.spec,
            ) ==> self.world().account_or_fresh(tx.sender, self.spec.account_start_nonce@).nonce + 1 < pow256())),
    {
        let is_create = match tx.action {
            Action::Create => true,
            Action::Call(_) => false,
        };
        if checked_gas_required_for(is_create, tx.data.as_slice(), self.spec).is_none() {
            return false;
        }
        match self.pre_check(tx, settings) {
            PreVerdict::Pass | PreVerdict::NotEnoughCash => {
                let current = if self.state.account_exists(&tx.sender) {
                    self.state.nonce(&tx.sender)
                } else {
                    self.spec.account_start_nonce
                };
                current.checked_add(&U256::from_u64(1)).is_some()
            },
            _ => true,
        }
    }

    /// Whether `transact_postprocessing` can settle the transaction: the gas left is not
    /// above the limit, the refund fits on the sender's balance, and the estimate of the
    /// gas limit, where one is asked for, fits in 256 bits.
    pub fn postprocessing_admits(&self, tx: &Transaction, frame_stack_output: &FrameStackOutput) -> (r: bool)
        ensures
            r == (gas_left_of(frame_stack_output.result) <= tx.gas@ && self.world().balance(tx.sender)
                + refund_value(*tx, gas_left_of(frame_stack_output.result)) < pow256() && (
            frame_stack_output.observer.gas_man matches Some(g) ==> g.required@ * 7 < pow256() && g.required@ * 7 / 6
                + frame_stack_output.base_gas_required < pow256())),
    {
        let gas_left = match &frame_stack_output.result {
            Ok(res) => res.gas_left,
            Err(_) => U256::zero(),
        };
        if tx.gas.lt(&gas_left) {
            return false;
        }
        let gas_used = tx.gas.sub(&gas_left);
        let charge_all = match gas_left.checked_add(&gas_left) {
            Some(twice) => match twice.checked_add(&gas_left) {
                Some(thrice) => !thrice.lt(&gas_used),
                None => true,
            },
            None => true,
        };
        let gas_refunded = if charge_all {
            tx.gas.checked_div(&U256::from_u64(4)).unwrap()
        } else {
            gas_left
        };
        let refund = gas_refunded.saturating_mul(&tx.gas_price);
        if self.state.balance(&tx.sender).checked_add(&refund).is_none() {
            return false;
        }
        match &frame_stack_output.observer.gas_man {
            Some(g) => match g.gas_required().checked_mul(&U256::from_u64(7)) {
                Some(seven) => match seven.checked_div(&U256::from_u64(6)) {
                    Some(scaled) => scaled.checked_add(&U256::from_u64(frame_stack_output.base_gas_required)).is_some(),
                    None => false,
                },
                None => false,
            },
            None => true,
        }
    }

    /// Whether `cross_vm_call_preprocessing` can take the call: its arguments can be
    /// encoded, and its value fits on the balance of the cross-space contract.
    pub fn cross_vm_call_admits(&self, cross_vm_params: &CrossVMParams) -> (r: bool)
        ensures
            r == (cross_vm_params.encodable() && self.world().balance(spec_cross_space_account())
                + cross_vm_params.value@ < pow256()),
    {
        cross_vm_params.is_encodable() && self.state.balance(
            &cross_space_contract_address().with_evm_space(),
        ).checked_add(&cross_vm_params.value).is_some()
    }

    /// Checks a transaction and charges for it in advance.
    ///
    /// The checks run in this order: the nonce, the base gas, the sender's balance. A
    /// transaction that fails one of the first two, or whose sender cannot pay and does
    /// not exist, is turned away and changes nothing. Any other has the sender's nonce
    /// raised; a sender who cannot pay is charged what the balance holds of the gas cost,
    /// and the transaction ends there. Otherwise the whole gas cost is taken, and the
    /// root frame comes back with an empty stack to enter it on.
    pub fn transact_preprocessing(&mut self, tx: &Transaction, options: TransactOptions) -> (r: PreCheckResult)
        requires
            base_gas(tx.is_create(), tx.data@, *old(self).spec) <= u64::MAX,
            pre_bumps_nonce(old(self).state@, *tx, options.check_settings, *old(self).spec) ==> old(
                self,
            ).state@.account_or_fresh(tx.sender, old(self).spec.account_start_nonce@).nonce + 1 < pow256(),
        ensures
            *final(final(self).state) == *final(old(self).state),
            final(self).env == old(self).env,
            final(self).spec == old(self).spec,
            final(self).state@ == state_after_pre(old(self).state@, *tx, options.check_settings, *old(self).spec),
            final(self).state.total_balance() + charged_in_advance(
                old(self).state@,
                *tx,
                options.check_settings,
                *old(self).spec,
            ) == old(self).state.total_balance(),
            match r {
                PreCheckResult::Fail(outcome) => {
                    &&& !(pre_verdict(old(self).state@, *tx, options.check_settings, *old(self).spec) is Pass)
                    &&& outcome@ == pre_fail_outcome(
                        options.observer,
                        old(self).state@,
                        *tx,
                        options.check_settings,
                        *old(self).spec,
                    )
                },
                PreCheckResult::Pass { top_frame, frame_stack } => {
                    &&& pre_verdict(old(self).state@, *tx, options.check_settings, *old(self).spec) is Pass
                    &&& top_frame.params@ == root_params(final(self).state@, *tx, *old(self).spec)
                    &&& top_frame.is_create == tx.is_create()
                    &&& top_frame.depth == 0
                    &&& !top_frame.static_flag
                    &&& final(self).state@.balance(tx.sender) >= tx.value@
                    &&& frame_stack@ == (FrameStackModel {
                        frames: Seq::empty(),
                        tx_substate: SubstateModel {
                            touched: touched_after(old(self).spec.spec_cleanup_mode(), Set::empty(), tx.sender),
                            ..SubstateModel::empty()
                        },
                        base_gas_required: base_gas(tx.is_create(), tx.data@, *old(self).spec) as u64,
                        static_flags: Seq::empty(),
                    })
                    &&& options.observer.traced(
                        &frame_stack.spec_observer(),
                        AddressPocket::Balance(tx.sender),
                        AddressPocket::GasPayment,
                        U256::from_nat(gas_cost(*tx, options.check_settings)),
                    )
                },
            },
    {
        let TransactOptions { observer, check_settings } = options;
        let mut observer = observer;
        let spec = self.spec;
        let sender = tx.sender;
        let nonce = self.state.nonce(&sender);
        proof {
            nonce.lemma_from_nat();
        }

        // Validate transaction nonce
        if tx.nonce.lt(&nonce) {
            return PreCheckResult::Fail(ExecutionOutcome::NotExecutedDrop(TxDropError::OldNonce(nonce, tx.nonce)));
        } else if nonce.lt(&tx.nonce) {
            return PreCheckResult::Fail(
                ExecutionOutcome::NotExecutedToReconsiderPacking(
                    ToRepackError::InvalidNonce { expected: nonce, got: tx.nonce },
                ),
            );
        }
        proof {
            nonce.lemma_view_injective(tx.nonce);
        }
        let is_create = match tx.action {
            Action::Create => true,
            Action::Call(_) => false,
        };
        let base_gas_required = gas_required_for(is_create, tx.data.as_slice(), spec);
        if tx.gas.lt(&U256::from_u64(base_gas_required)) {
            return PreCheckResult::Fail(
                ExecutionOutcome::NotExecutedDrop(
                    TxDropError::NotEnoughBaseGas { expected: base_gas_required, actual: tx.gas.as_u64() },
                ),
            );
        }
        let balance = self.state.balance(&sender);
        let gas_cost = if check_settings.charge_gas {
            tx.gas.full_mul(&tx.gas_price)
        } else {
            U512::from_u256(&U256::zero())
        };
        let sender_balance = U512::from_u256(&balance);
        proof {
            lemma_cost_fits(tx.value@, tx.gas@, tx.gas_price@);
        }
        let total_cost = U512::from_u256(&tx.value).checked_add(&gas_cost).unwrap();
        let mut tx_substate = Substate::new();
        let mode = spec.cleanup_mode();
        if sender_balance.lt(&total_cost) {
            // The sender answers for the shortfall: what the balance holds of the gas
            // cost is taken.
            let actual_gas_cost = gas_cost.min(&sender_balance).to_u256().unwrap();
            proof {
                actual_gas_cost.lemma_from_nat();
                total_cost.lemma_from_nat();
                sender_balance.lemma_from_nat();
            }
            // A sender that does not exist and cannot be charged is not created.
            if !self.state.account_exists(&sender) && check_settings.real_execution {
                return PreCheckResult::Fail(
                    ExecutionOutcome::NotExecutedToReconsiderPacking(ToRepackError::SenderDoesNotExist),
                );
            }
            self.state.inc_nonce(&sender, &spec.account_start_nonce);
            self.state.sub_balance(&sender, &actual_gas_cost, mode, &mut tx_substate.touched);
            observer.trace_internal_transfer(
                AddressPocket::Balance(sender),
                AddressPocket::GasPayment,
                actual_gas_cost,
            );
            return PreCheckResult::Fail(
                ExecutionOutcome::ExecutionErrorBumpNonce(
                    ExecutionError::NotEnoughCash {
                        required: total_cost,
                        got: sender_balance,
                        actual_gas_cost,
                    },
                    Executed::not_enough_balance_fee_charged(tx, &actual_gas_cost, observer.drain_trace(), spec),
                ),
            );
        }
        // From here on the sender can pay, and the transaction runs.
        self.state.inc_nonce(&sender, &spec.account_start_nonce);
        let gas_cost = gas_cost.to_u256().unwrap();
        proof {
            gas_cost.lemma_from_nat();
        }
        observer.trace_internal_transfer(AddressPocket::Balance(sender), AddressPocket::GasPayment, gas_cost);
        self.state.sub_balance(&sender, &gas_cost, mode, &mut tx_substate.touched);

        let init_gas = tx.gas.sub(&U256::from_u64(base_gas_required));
        let top_frame = match tx.action {
            Action::Create => {
                let (new_address, _code_hash) = contract_address(
                    CreateContractAddress::FromSenderNonce,
                    self.env.number,
                    &sender,
                    &nonce,
                    tx.data.as_slice(),
                );
                let params = ActionParams {
                    space: sender.space,
                    code_address: new_address.address,
                    code_hash: None,
                    address: new_address.address,
                    sender: sender.address,
                    original_sender: sender.address,
                    gas: init_gas,
                    gas_price: tx.gas_price,
                    value: ActionValue::Transfer(tx.value),
                    code: Some(copy_bytes(tx.data.as_slice())),
                    data: None,
                    call_type: CallType::NoCall,
                    create_type: CreateType::CREATE,
                    params_type: ParamsType::Embedded,
                };
                CallCreateFrame::new_create_raw(params, self.env, spec, 0, false)
            },
            Action::Call(address) => {
                let address = address.with_space(sender.space);
                let params = ActionParams {
                    space: sender.space,
                    code_address: address.address,
                    address: address.address,
                    sender: sender.address,
                    original_sender: sender.address,
                    gas: init_gas,
                    gas_price: tx.gas_price,
                    value: ActionValue::Transfer(tx.value),
                    code: self.state.code(&address),
                    code_hash: self.state.code_hash(&address),
                    data: Some(copy_bytes(tx.data.as_slice())),
                    call_type: CallType::Call,
                    create_type: CreateType::NoCreate,
                    params_type: ParamsType::Separate,
                };
                CallCreateFrame::new_call_raw(params, self.env, spec, 0, false)
            },
        };
        let frame_stack = FrameStack::new(tx_substate, observer, base_gas_required);
        PreCheckResult::Pass { top_frame, frame_stack }
    }

    /// Removes the accounts that destroyed themselves. The balance of each is burned: it
    /// leaves the issued supply, and the state tracer records its way to `MintBurn`.
    pub fn kill_process(&mut self, suicides: &AddressSet, observer: &mut MultiObservers) -> (r: Substate)
        ensures
            *final(final(self).state) == *final(old(self).state),
            final(self).env == old(self).env,
            final(self).spec == old(self).spec,
            final(self).state@ == state_after_kill(
                old(self).state@,
                suicides@,
                burned(old(self).state@, suicides.order()),
            ),
            final(self).state.total_balance() + burned(old(self).state@, suicides.order()) == old(
                self,
            ).state.total_balance(),
            old(observer).traced_all(final(observer), kill_records(old(self).state@, suicides.order())),
            r@ == SubstateModel::empty(),
    {
        let substate = Substate::new();
        let n = suicides.len();
        let ghost order = suicides.order();
        let ghost ws = self.state@;
        let mut i: usize = 0;
        assert(order.subrange(0, 0) =~= Seq::<AddressWithSpace>::empty());
        assert(self.state@.accounts =~= ws.accounts.remove_keys(order.subrange(0, 0).to_set()));
        assert(kill_records(ws, order.subrange(0, 0)) =~= Seq::<ExecTrace>::empty());
        assert(old(observer).trace() + Seq::<ExecTrace>::empty() =~= old(observer).trace());
        while i < n
            invariant
                i <= n,
                n == order.len(),
                order == suicides.order(),
                order.no_duplicates(),
                order.to_set() == suicides@,
                ws == old(self).state@,
                *final(self.state) == *final(old(self).state),
                self.env == old(self).env,
                self.spec == old(self).spec,
                self.state@ == state_after_kill(
                    ws,
                    order.subrange(0, i as int).to_set(),
                    burned(ws, order.subrange(0, i as int)),
                ),
                self.state.total_balance() + burned(ws, order.subrange(0, i as int)) == old(
                    self,
                ).state.total_balance(),
                old(observer).traced_all(observer, kill_records(ws, order.subrange(0, i as int))),
            decreases n - i,
        {
            let contract_address = suicides.get(i);
            let ghost prefix = order.subrange(0, i as int);
            let ghost next = order.subrange(0, i + 1);
            assert(next.drop_last() =~= prefix);
            assert(!prefix.to_set().contains(contract_address)) by {
                if prefix.contains(contract_address) {
                    let k = choose|k: int| 0 <= k < prefix.len() && prefix[k] == contract_address;
                    assert(order[k] == order[i as int]);
                }
            }
            let contract_balance = self.state.balance(&contract_address);
            assert(contract_balance@ == ws.balance(contract_address));
            proof {
                contract_balance.lemma_from_nat();
            }
            let ghost before = *observer;
            observer.trace_internal_transfer(
                AddressPocket::Balance(contract_address),
                AddressPocket::MintBurn,
                contract_balance,
            );
            self.state.remove_contract(&contract_address);
            self.state.subtract_total_issued(contract_balance);
            assert(next.to_set() =~= prefix.to_set().insert(contract_address)) by {
                assert forall|x: AddressWithSpace| next.to_set().contains(x) <==> prefix.to_set().insert(
                    contract_address,
                ).contains(x) by {
                    if next.contains(x) {
                        let k = choose|k: int| 0 <= k < next.len() && next[k] == x;
                        if k < prefix.len() {
                            assert(prefix[k] == x);
                        }
                    }
                    if prefix.contains(x) {
                        let k = choose|k: int| 0 <= k < prefix.len() && prefix[k] == x;
                        assert(next[k] == x);
                    }
                    if x == contract_address {
                        assert(next[i as int] == x);
                    }
                }
            }
            assert(self.state@.accounts =~= ws.accounts.remove_keys(next.to_set()));
            assert(kill_records(ws, next) =~= kill_records(ws, prefix).push(
                ExecTrace::InternalTransfer {
                    from: AddressPocket::Balance(contract_address),
                    to: AddressPocket::MintBurn,
                    value: contract_balance,
                },
            ));
            assert(old(observer).trace() + kill_records(ws, next) =~= (old(observer).trace() + kill_records(
                ws,
                prefix,
            )) + seq![
                ExecTrace::InternalTransfer {
                    from: AddressPocket::Balance(contract_address),
                    to: AddressPocket::MintBurn,
                    value: contract_balance,
                },
            ]);
            i += 1;
        }
        assert(order.subrange(0, n as int) =~= order);
        substate
    }

    /// Settles a transaction after its root frame returned: gives the refund back and
    /// removes the accounts that destroyed themselves, then tells how the transaction
    /// ended.
    ///
    /// A failure of the state database underneath the machine is no outcome: it comes
    /// back as the error, after the refund and the removals were made.
    pub fn transact_postprocessing(&mut self, tx: &Transaction, frame_stack_output: FrameStackOutput) -> (r: Result<
        ExecutionOutcome,
        DbError,
    >)
        requires
            gas_left_of(frame_stack_output.result) <= tx.gas@,
            old(self).state@.balance(tx.sender) + refund_value(*tx, gas_left_of(frame_stack_output.result))
                < pow256(),
            frame_stack_output.observer.gas_man matches Some(g) ==> g.required@ * 7 < pow256() && g.required@ * 7
                / 6 + frame_stack_output.base_gas_required < pow256(),
        ensures
            *final(final(self).state) == *final(old(self).state),
            final(self).env == old(self).env,
            final(self).spec == old(self).spec,
            final(self).state@ == state_after_post(old(self).state@, *tx, frame_stack_output, *old(self).spec),
            final(self).state.total_balance() + burned(
                state_after_refund(
                    old(self).state@,
                    *tx,
                    gas_left_of(frame_stack_output.result),
                    *old(self).spec,
                ),
                frame_stack_output.substate.suicides.order(),
            ) == old(self).state.total_balance() + refund_value(*tx, gas_left_of(frame_stack_output.result)),
            match frame_stack_output.result {
                Err(Error::StateDbError(e)) => r == Err::<ExecutionOutcome, DbError>(e),
                _ => r matches Ok(outcome) && outcome@ == post_outcome(
                    old(self).state@,
                    *tx,
                    frame_stack_output,
                    *old(self).spec,
                ),
            },
    {
        let FrameStackOutput { substate, result, observer, base_gas_required } = frame_stack_output;
        let mut substate = substate;
        let mut observer = observer;
        let spec = self.spec;

        let output = match &result {
            Ok(res) => copy_bytes(res.return_data.as_slice()),
            Err(_) => Vec::new(),
        };
        let estimated_gas_limit = match &observer.gas_man {
            Some(g) => {
                let seven = g.gas_required().checked_mul(&U256::from_u64(7)).unwrap();
                let scaled = seven.checked_div(&U256::from_u64(6)).unwrap();
                Some(scaled.add(&U256::from_u64(base_gas_required)))
            },
            None => None,
        };
        let gas_left = match &result {
            Ok(res) => res.gas_left,
            Err(_) => U256::zero(),
        };
        // gas_used is only used to estimate gas needed
        let gas_used = tx.gas.sub(&gas_left);
        // Where less than a quarter of the limit was used, three quarters are charged.
        let charge_all = match gas_left.checked_add(&gas_left) {
            Some(twice) => match twice.checked_add(&gas_left) {
                Some(thrice) => !thrice.lt(&gas_used),
                None => true,
            },
            None => true,
        };
        let gas_refunded = if charge_all {
            tx.gas.checked_div(&U256::from_u64(4)).unwrap()
        } else {
            gas_left
        };
        let gas_charged = tx.gas.sub(&gas_refunded);
        let fees_value = gas_charged.saturating_mul(&tx.gas_price);
        let refund = gas_refunded.saturating_mul(&tx.gas_price);
        proof {
            refund.lemma_from_nat();
        }
        observer.trace_internal_transfer(AddressPocket::GasPayment, AddressPocket::Balance(tx.sender), refund);
        let ghost after_refund_trace = observer;
        self.state.add_balance(
            &tx.sender,
            &refund,
            spec.cleanup_mode(),
            &mut substate.touched,
            spec.account_start_nonce,
        );

        // perform suicides
        let subsubstate = self.kill_process(&substate.suicides, &mut observer);
        substate.accrue(subsubstate);
        assert(substate.logs@ =~= frame_stack_output.substate.logs@);
        assert(substate.contracts_created@ =~= frame_stack_output.substate.contracts_created@);

        let ghost records = kill_records(
            state_after_refund(old(self).state@, *tx, gas_left@, *spec),
            frame_stack_output.substate.suicides.order(),
        );
        assert(observer.tracer is Some ==> observer.trace() =~= post_trace(
            old(self).state@,
            *tx,
            frame_stack_output,
            *spec,
        ));
        match result {
            Err(Error::StateDbError(e)) => Err(e),
            Err(exception) => Ok(
                ExecutionOutcome::ExecutionErrorBumpNonce(
                    ExecutionError::VmError(exception),
                    Executed::execution_error_fully_charged(tx, observer.drain_trace(), spec),
                ),
            ),
            Ok(r) => {
                let trace = observer.drain_trace();
                let (logs, contracts_created) = if r.apply_state {
                    (substate.logs, substate.contracts_created)
                } else {
                    (Vec::new(), Vec::new())
                };
                let executed = Executed {
                    gas_used,
                    gas_charged,
                    fee: fees_value,
                    logs,
                    contracts_created,
                    output,
                    trace,
                    estimated_gas_limit,
                };
                if r.apply_state {
                    Ok(ExecutionOutcome::Finished(executed))
                } else {
                    // The root frame asked for its effects to be dropped.
                    Ok(
                        ExecutionOutcome::ExecutionErrorBumpNonce(
                            ExecutionError::VmError(Error::Reverted),
                            executed,
                        ),
                    )
                }
            },
        }
    }

    /// Prepares a call that the cross-space contract makes. The value of the call is
    /// credited to the cross-space contract, which then is the sender of a plain call to
    /// the receiver; nothing is traced, and nothing is charged in advance.
    pub fn cross_vm_call_preprocessing(&mut self, cross_vm_params: CrossVMParams) -> (r: PreCheckResult)
        requires
            cross_vm_params.encodable(),
            old(self).state@.balance(spec_cross_space_account()) + cross_vm_params.value@
                < pow256(),
        ensures
            *final(final(self).state) == *final(old(self).state),
            final(self).env == old(self).env,
            final(self).spec == old(self).spec,
            final(self).state@ == old(self).state@.add_balance(
                spec_cross_space_account(),
                cross_vm_params.value@,
                old(self).spec.account_start_nonce@,
            ),
            final(self).state.total_balance() == old(self).state.total_balance() + cross_vm_params.value@,
            r matches PreCheckResult::Pass { top_frame, frame_stack } && {
                &&& top_frame.params@ == cross_vm_params.root_params(old(self).state@)
                &&& !top_frame.is_create
                &&& top_frame.depth == 0
                &&& !top_frame.static_flag
                &&& frame_stack@ == (FrameStackModel {
                    frames: Seq::empty(),
                    tx_substate: SubstateModel::empty(),
                    base_gas_required: 0,
                    static_flags: Seq::empty(),
                })
                &&& frame_stack.spec_observer().tracer is None
                &&& frame_stack.spec_observer().vm_tracer is None
                &&& frame_stack.spec_observer().gas_man is None
            },
    {
        let data = cross_vm_params.data();
        let CrossVMParams { receiver, function_name: _, gas, gas_price, value, evm_params: _, caller_info: _ } =
            cross_vm_params;
        let address = receiver.with_evm_space();
        let params = ActionParams {
            space: address.space,
            code_address: address.address,
            address: address.address,
            sender: cross_space_contract_address(),
            original_sender: Address::zero(),
            gas,
            gas_price,
            value: ActionValue::Transfer(value),
            code: self.state.code(&address),
            code_hash: self.state.code_hash(&address),
            data: Some(data),
            call_type: CallType::Call,
            create_type: CreateType::NoCreate,
            params_type: ParamsType::Separate,
        };
        let top_frame = CallCreateFrame::new_call_raw(params, self.env, self.spec, 0, false);
        let mut substate = Substate::new();
        self.state.add_balance(
            &cross_space_contract_address().with_evm_space(),
            &value,
            self.spec.cleanup_mode(),
            &mut substate.touched,
            self.spec.account_start_nonce,
        );
        let frame_stack = FrameStack::new(Substate::new(), MultiObservers::with_no_tracing(), 0);
        PreCheckResult::Pass { top_frame, frame_stack }
    }
}

} // verus!
