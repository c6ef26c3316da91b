use cfx_evm::address::{Address, AddressWithSpace};
use cfx_evm::address_set::AddressSet;
use cfx_evm::executed::{ExecutionError, ExecutionOutcome, ToRepackError, TxDropError};
use cfx_evm::executor::{
    gas_required_for, PreCheckResult, TXExecutor, TransactCheckSettings, TransactOptions,
};
use cfx_evm::frame::{FrameStackOutput, FrameStep};
use cfx_evm::observer::{AddressPocket, ExecTrace, GasMan, MultiObservers, StateTracer};
use cfx_evm::state::{CleanupMode, State};
use cfx_evm::statedb::DbError;
use cfx_evm::transaction::{Action, Transaction};
use cfx_evm::uint::{U256, U512};
use cfx_evm::vm::{Env, Error, FinalizationResult, Spec};

fn spec() -> Spec {
    Spec {
        tx_gas: 21000,
        tx_create_gas: 53000,
        tx_data_zero_gas: 4,
        tx_data_non_zero_gas: 68,
        account_start_nonce: U256::zero(),
        max_depth: 1024,
        track_touched: false,
    }
}

fn env() -> Env {
    Env {
        number: 1,
        timestamp: 0,
        author: Address::zero(),
        difficulty: U256::zero(),
        gas_limit: U256::from_u64(30_000_000),
        last_hashes: vec![],
    }
}

fn account(n: u128) -> AddressWithSpace {
    Address { hi: 0x1000_0000, lo: n }.with_evm_space()
}

fn fund(state: &mut State, a: &AddressWithSpace, amount: u64) {
    let mut touched = AddressSet::new();
    state.add_balance(a, &U256::from_u64(amount), CleanupMode::NoEmpty, &mut touched, U256::zero());
}

fn call(sender: AddressWithSpace, to: AddressWithSpace, nonce: u64, gas: u64, price: u64, value: u64) -> Transaction {
    Transaction {
        sender,
        nonce: U256::from_u64(nonce),
        gas: U256::from_u64(gas),
        gas_price: U256::from_u64(price),
        value: U256::from_u64(value),
        action: Action::Call(to.address),
        data: vec![],
    }
}

fn applied() -> TransactCheckSettings {
    TransactCheckSettings { charge_gas: true, real_execution: true }
}

fn traced(settings: TransactCheckSettings) -> TransactOptions {
    TransactOptions {
        observer: MultiObservers { tracer: Some(StateTracer::new()), vm_tracer: None, gas_man: None },
        check_settings: settings,
    }
}

/// Runs a transaction whose root frame uses `used` gas and then returns `apply_state`.
fn run(
    state: &mut State,
    tx: &Transaction,
    options: TransactOptions,
    used: u64,
    apply_state: bool,
    suicides: &[AddressWithSpace],
) -> ExecutionOutcome {
    let env = env();
    let spec = spec();
    let mut executor = TXExecutor::new(state, &env, &spec);
    let pre = executor.transact_preprocessing(tx, options);
    let (top_frame, frame_stack) = match pre {
        PreCheckResult::Pass { top_frame, frame_stack } => (top_frame, frame_stack),
        PreCheckResult::Fail(outcome) => return outcome,
    };
    let init_gas = top_frame.params.gas;
    let mut stack = match frame_stack.push(top_frame, executor.state, &spec) {
        FrameStep::Run(stack) => stack,
        _ => panic!("the root frame was not entered"),
    };
    let mut gathered = stack.take_top_substate();
    for a in suicides {
        gathered.suicides.insert(*a);
    }
    stack.put_top_substate(gathered);
    let result = Ok(FinalizationResult {
        gas_left: init_gas.sub(&U256::from_u64(used)),
        apply_state,
        return_data: vec![1, 2, 3],
    });
    let output = match stack.on_return(result, executor.state) {
        FrameStep::Done(output) => output,
        _ => panic!("the root frame did not end the stack"),
    };
    executor.transact_postprocessing(tx, output).unwrap()
}

#[test]
fn base_gas_counts_zero_and_non_zero_bytes() {
    let s = spec();
    assert_eq!(gas_required_for(false, &[], &s), 21000);
    assert_eq!(gas_required_for(true, &[], &s), 53000);
    assert_eq!(gas_required_for(false, &[0, 1, 0, 255], &s), 21000 + 4 + 68 + 4 + 68);
}

#[test]
fn plain_transfer_finishes() {
    let (a, b) = (account(1), account(2));
    let mut state = State::new(U256::from_u64(1_000_000));
    fund(&mut state, &a, 100_000);
    let tx = call(a, b, 0, 21000, 1, 10);
    let outcome = run(&mut state, &tx, traced(applied()), 0, true, &[]);
    let executed = outcome.successfully_executed().expect("finished");
    assert_eq!(executed.fee, U256::from_u64(21000));
    assert_eq!(executed.gas_used, U256::from_u64(21000));
    assert_eq!(executed.gas_charged, U256::from_u64(21000));
    assert_eq!(executed.output, vec![1, 2, 3]);
    assert_eq!(executed.estimated_gas_limit, None);
    assert_eq!(state.balance(&b), U256::from_u64(10));
    assert_eq!(state.balance(&a), U256::from_u64(100_000 - 21000 - 10));
    assert_eq!(state.nonce(&a), U256::from_u64(1));
    assert_eq!(
        executed.trace,
        vec![
            ExecTrace::InternalTransfer {
                from: AddressPocket::Balance(a),
                to: AddressPocket::GasPayment,
                value: U256::from_u64(21000),
            },
            ExecTrace::InternalTransfer {
                from: AddressPocket::GasPayment,
                to: AddressPocket::Balance(a),
                value: U256::zero(),
            },
        ]
    );
}

#[test]
fn old_nonce_is_dropped() {
    let (a, b) = (account(1), account(2));
    let mut state = State::new(U256::zero());
    fund(&mut state, &a, 100_000);
    for _ in 0..5 {
        state.inc_nonce(&a, &U256::zero());
    }
    let tx = call(a, b, 4, 21000, 1, 10);
    let outcome = run(&mut state, &tx, traced(applied()), 0, true, &[]);
    match outcome {
        ExecutionOutcome::NotExecutedDrop(TxDropError::OldNonce(in_state, in_tx)) => {
            assert_eq!(in_state, U256::from_u64(5));
            assert_eq!(in_tx, U256::from_u64(4));
        },
        other => panic!("unexpected outcome {:?}", other),
    }
    assert_eq!(state.nonce(&a), U256::from_u64(5));
    assert_eq!(state.balance(&a), U256::from_u64(100_000));
}

#[test]
fn future_nonce_is_reconsidered() {
    let (a, b) = (account(1), account(2));
    let mut state = State::new(U256::zero());
    fund(&mut state, &a, 100_000);
    let tx = call(a, b, 3, 21000, 1, 10);
    match run(&mut state, &tx, traced(applied()), 0, true, &[]) {
        ExecutionOutcome::NotExecutedToReconsiderPacking(ToRepackError::InvalidNonce { expected, got }) => {
            assert_eq!(expected, U256::zero());
            assert_eq!(got, U256::from_u64(3));
        },
        other => panic!("unexpected outcome {:?}", other),
    }
    assert_eq!(state.nonce(&a), U256::zero());
}

#[test]
fn gas_below_base_gas_is_dropped() {
    let (a, b) = (account(1), account(2));
    let mut state = State::new(U256::zero());
    fund(&mut state, &a, 100_000);
    for _ in 0..5 {
        state.inc_nonce(&a, &U256::zero());
    }
    let tx = call(a, b, 5, 20000, 1, 10);
    match run(&mut state, &tx, traced(applied()), 0, true, &[]) {
        ExecutionOutcome::NotExecutedDrop(TxDropError::NotEnoughBaseGas { expected, actual }) => {
            assert_eq!(expected, 21000);
            assert_eq!(actual, 20000);
        },
        other => panic!("unexpected outcome {:?}", other),
    }
    assert_eq!(state.nonce(&a), U256::from_u64(5));
}

#[test]
fn absent_sender_is_reconsidered() {
    let (a, b) = (account(1), account(2));
    let mut state = State::new(U256::zero());
    let tx = call(a, b, 0, 21000, 1, 0);
    match run(&mut state, &tx, traced(applied()), 0, true, &[]) {
        ExecutionOutcome::NotExecutedToReconsiderPacking(ToRepackError::SenderDoesNotExist) => {},
        other => panic!("unexpected outcome {:?}", other),
    }
    assert!(!state.account_exists(&a));
}

#[test]
fn absent_sender_of_a_dry_run_is_charged_nothing() {
    let (a, b) = (account(1), account(2));
    let mut state = State::new(U256::zero());
    let tx = call(a, b, 0, 21000, 2, 7);
    let settings = TransactCheckSettings { charge_gas: true, real_execution: false };
    match run(&mut state, &tx, traced(settings), 0, true, &[]) {
        ExecutionOutcome::ExecutionErrorBumpNonce(
            ExecutionError::NotEnoughCash { required, got, actual_gas_cost },
            executed,
        ) => {
            assert_eq!(required, U512::from_u256(&U256::from_u64(42007)));
            assert_eq!(got, U512::from_u256(&U256::zero()));
            assert_eq!(actual_gas_cost, U256::zero());
            assert_eq!(executed.fee, U256::zero());
            assert_eq!(executed.gas_charged, U256::zero());
            assert_eq!(executed.gas_used, U256::from_u64(21000));
            assert!(executed.logs.is_empty());
            assert!(executed.contracts_created.is_empty());
        },
        other => panic!("unexpected outcome {:?}", other),
    }
    assert_eq!(state.nonce(&a), U256::from_u64(1));
}

#[test]
fn sender_short_of_cash_pays_what_it_has() {
    let (a, b) = (account(1), account(2));
    let mut state = State::new(U256::zero());
    fund(&mut state, &a, 30_000);
    let tx = call(a, b, 0, 21000, 2, 10);
    match run(&mut state, &tx, traced(applied()), 0, true, &[]) {
        ExecutionOutcome::ExecutionErrorBumpNonce(
            ExecutionError::NotEnoughCash { required, got, actual_gas_cost },
            executed,
        ) => {
            assert_eq!(required, U512::from_u256(&U256::from_u64(42010)));
            assert_eq!(got, U512::from_u256(&U256::from_u64(30_000)));
            assert_eq!(actual_gas_cost, U256::from_u64(30_000));
            assert_eq!(executed.fee, U256::from_u64(30_000));
            assert_eq!(executed.gas_charged, U256::from_u64(15_000));
            assert_eq!(executed.trace.len(), 1);
        },
        other => panic!("unexpected outcome {:?}", other),
    }
    assert_eq!(state.balance(&a), U256::zero());
    assert_eq!(state.balance(&b), U256::zero());
    assert_eq!(state.nonce(&a), U256::from_u64(1));
}

#[test]
fn mostly_unused_gas_is_charged_three_quarters() {
    let (a, b) = (account(1), account(2));
    let mut state = State::new(U256::zero());
    fund(&mut state, &a, 1_000_000);
    let tx = call(a, b, 0, 100_000, 3, 0);
    let outcome = run(&mut state, &tx, traced(applied()), 1000, true, &[]);
    let executed = outcome.successfully_executed().expect("finished");
    assert_eq!(executed.gas_used, U256::from_u64(22_000));
    assert_eq!(executed.gas_charged, U256::from_u64(75_000));
    assert_eq!(executed.fee, U256::from_u64(225_000));
    assert_eq!(state.balance(&a), U256::from_u64(1_000_000 - 225_000));
}

#[test]
fn mostly_used_gas_is_charged_as_used() {
    let (a, b) = (account(1), account(2));
    let mut state = State::new(U256::zero());
    fund(&mut state, &a, 1_000_000);
    let tx = call(a, b, 0, 100_000, 3, 0);
    let outcome = run(&mut state, &tx, traced(applied()), 70_000, true, &[]);
    let executed = outcome.successfully_executed().expect("finished");
    assert_eq!(executed.gas_used, U256::from_u64(91_000));
    assert_eq!(executed.gas_charged, U256::from_u64(91_000));
    assert_eq!(executed.fee, U256::from_u64(273_000));
    assert_eq!(state.balance(&a), U256::from_u64(1_000_000 - 273_000));
}

#[test]
fn reverted_root_frame_bumps_nonce_and_keeps_nothing() {
    let (a, b) = (account(1), account(2));
    let mut state = State::new(U256::zero());
    fund(&mut state, &a, 1_000_000);
    let tx = call(a, b, 0, 100_000, 1, 500);
    match run(&mut state, &tx, traced(applied()), 90_000 - 21_000, false, &[]) {
        ExecutionOutcome::ExecutionErrorBumpNonce(ExecutionError::VmError(Error::Reverted), executed) => {
            assert!(executed.logs.is_empty());
            assert!(executed.contracts_created.is_empty());
            assert_eq!(executed.gas_charged, U256::from_u64(90_000));
        },
        other => panic!("unexpected outcome {:?}", other),
    }
    assert_eq!(state.balance(&b), U256::zero());
    assert_eq!(state.balance(&a), U256::from_u64(1_000_000 - 90_000));
    assert_eq!(state.nonce(&a), U256::from_u64(1));
}

#[test]
fn self_destruct_burns_the_balance() {
    let (a, b) = (account(1), account(2));
    let mut state = State::new(U256::from_u64(1_000));
    fund(&mut state, &a, 1_000_000);
    fund(&mut state, &b, 42);
    let tx = call(a, b, 0, 21_000, 1, 0);
    let outcome = run(&mut state, &tx, traced(applied()), 0, true, &[b]);
    let executed = outcome.successfully_executed().expect("finished");
    assert!(!state.account_exists(&b));
    assert_eq!(state.total_issued(), U256::from_u64(1_000 - 42));
    assert_eq!(
        executed.trace.last(),
        Some(&ExecTrace::InternalTransfer {
            from: AddressPocket::Balance(b),
            to: AddressPocket::MintBurn,
            value: U256::from_u64(42),
        })
    );
}

#[test]
fn machine_failure_charges_all_gas() {
    let a = account(1);
    let mut state = State::new(U256::zero());
    fund(&mut state, &a, 1_000_000);
    let tx = call(a, account(2), 0, 50_000, 2, 0);
    let env = env();
    let spec = spec();
    let mut executor = TXExecutor::new(&mut state, &env, &spec);
    let output = FrameStackOutput {
        substate: cfx_evm::substate::Substate::new(),
        result: Err(Error::OutOfGas),
        observer: MultiObservers::with_no_tracing(),
        base_gas_required: 21_000,
    };
    match executor.transact_postprocessing(&tx, output).unwrap() {
        ExecutionOutcome::ExecutionErrorBumpNonce(ExecutionError::VmError(Error::OutOfGas), executed) => {
            assert_eq!(executed.gas_used, U256::from_u64(50_000));
            assert_eq!(executed.gas_charged, U256::from_u64(50_000));
            assert_eq!(executed.fee, U256::from_u64(100_000));
            assert!(executed.trace.is_empty());
        },
        other => panic!("unexpected outcome {:?}", other),
    }
}

#[test]
fn database_failure_is_no_outcome() {
    let a = account(1);
    let mut state = State::new(U256::zero());
    fund(&mut state, &a, 1_000_000);
    let tx = call(a, account(2), 0, 50_000, 2, 0);
    let env = env();
    let spec = spec();
    let mut executor = TXExecutor::new(&mut state, &env, &spec);
    let output = FrameStackOutput {
        substate: cfx_evm::substate::Substate::new(),
        result: Err(Error::StateDbError(DbError::IncompleteDatabase)),
        observer: MultiObservers::with_no_tracing(),
        base_gas_required: 21_000,
    };
    assert_eq!(executor.transact_postprocessing(&tx, output).unwrap_err(), DbError::IncompleteDatabase);
}

#[test]
fn gas_manager_gives_an_estimate() {
    let a = account(1);
    let mut state = State::new(U256::zero());
    fund(&mut state, &a, 1_000_000);
    let tx = call(a, account(2), 0, 50_000, 0, 0);
    let env = env();
    let spec = spec();
    let mut executor = TXExecutor::new(&mut state, &env, &spec);
    let mut gas_man = GasMan::new();
    gas_man.record(U256::from_u64(1000));
    gas_man.record(U256::from_u64(500));
    let output = FrameStackOutput {
        substate: cfx_evm::substate::Substate::new(),
        result: Ok(FinalizationResult { gas_left: U256::from_u64(10), apply_state: true, return_data: vec![] }),
        observer: MultiObservers { tracer: None, vm_tracer: None, gas_man: Some(gas_man) },
        base_gas_required: 21_000,
    };
    let executed = executor.transact_postprocessing(&tx, output).unwrap().successfully_executed().unwrap();
    assert_eq!(executed.estimated_gas_limit, Some(U256::from_u64(1000 * 7 / 6 + 21_000)));
}

#[test]
fn fee_saturates() {
    let a = account(1);
    let mut state = State::new(U256::zero());
    let mut tx = call(a, account(2), 0, 0, 0, 0);
    tx.gas = U256::max_value();
    tx.gas_price = U256::from_u64(2);
    let env = env();
    let spec = spec();
    let mut executor = TXExecutor::new(&mut state, &env, &spec);
    let output = FrameStackOutput {
        substate: cfx_evm::substate::Substate::new(),
        result: Err(Error::BadInstruction),
        observer: MultiObservers::with_no_tracing(),
        base_gas_required: 0,
    };
    match executor.transact_postprocessing(&tx, output).unwrap() {
        ExecutionOutcome::ExecutionErrorBumpNonce(_, executed) => {
            assert_eq!(executed.fee, U256::max_value());
        },
        other => panic!("unexpected outcome {:?}", other),
    }
}
