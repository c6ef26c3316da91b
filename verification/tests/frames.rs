use cfx_evm::address::{Address, AddressWithSpace, Space, H256};
use cfx_evm::address_set::AddressSet;
use cfx_evm::context::InternalRefContext;
use cfx_evm::frame::{contract_address, CallCreateFrame, FrameStack, FrameStep};
use cfx_evm::hash::keccak;
use cfx_evm::observer::MultiObservers;
use cfx_evm::state::{CleanupMode, State};
use cfx_evm::substate::{FrameStackInfo, LogEntry, Substate};
use cfx_evm::uint::U256;
use cfx_evm::vm::{
    ActionParams, ActionValue, CallType, CreateContractAddress, CreateType, Env, Error, FinalizationResult,
    ParamsType, Spec,
};

fn spec(max_depth: usize, track_touched: bool) -> Spec {
    Spec {
        tx_gas: 21000,
        tx_create_gas: 53000,
        tx_data_zero_gas: 4,
        tx_data_non_zero_gas: 68,
        account_start_nonce: U256::from_u64(7),
        max_depth,
        track_touched,
    }
}

fn env() -> Env {
    Env {
        number: 1,
        timestamp: 0,
        author: Address::zero(),
        difficulty: U256::zero(),
        gas_limit: U256::from_u64(30_000_000),
        last_hashes: vec![],
    }
}

fn account(n: u128) -> AddressWithSpace {
    Address { hi: 0x8000_0000, lo: n }.with_evm_space()
}

fn params(from: AddressWithSpace, to: AddressWithSpace, value: ActionValue, call_type: CallType) -> ActionParams {
    ActionParams {
        space: Space::Ethereum,
        code_address: to.address,
        code_hash: None,
        address: to.address,
        sender: from.address,
        original_sender: from.address,
        gas: U256::from_u64(1000),
        gas_price: U256::from_u64(1),
        value,
        code: None,
        data: None,
        call_type,
        create_type: CreateType::NoCreate,
        params_type: ParamsType::Separate,
    }
}

fn funded(a: &AddressWithSpace, amount: u64) -> State {
    let mut state = State::new(U256::zero());
    let mut touched = AddressSet::new();
    state.add_balance(a, &U256::from_u64(amount), CleanupMode::NoEmpty, &mut touched, U256::zero());
    state
}

fn log(n: u8) -> LogEntry {
    LogEntry { address: Address::zero(), topics: vec![], data: vec![n], space: Space::Ethereum }
}

fn ok(apply_state: bool) -> Result<FinalizationResult, Error> {
    Ok(FinalizationResult { gas_left: U256::from_u64(5), apply_state, return_data: vec![] })
}

fn run(step: FrameStep) -> FrameStack {
    match step {
        FrameStep::Run(stack) => stack,
        other => panic!("the frame was not entered: {:?}", other),
    }
}

#[test]
fn entering_a_frame_moves_its_value() {
    let (a, b) = (account(1), account(2));
    let mut state = funded(&a, 100);
    let sp = spec(1024, true);
    let frame = CallCreateFrame::new_call_raw(
        params(a, b, ActionValue::Transfer(U256::from_u64(30)), CallType::Call),
        &env(),
        &sp,
        0,
        false,
    );
    let stack = FrameStack::new(Substate::new(), MultiObservers::with_no_tracing(), 0);
    let mut stack = run(stack.push(frame, &mut state, &sp));
    assert_eq!(stack.depth(), 1);
    assert_eq!(state.balance(&a), U256::from_u64(70));
    assert_eq!(state.balance(&b), U256::from_u64(30));
    assert_eq!(state.nonce(&b), U256::from_u64(7));
    let gathered = stack.take_top_substate();
    assert!(gathered.touched.contains(&a));
    assert!(gathered.touched.contains(&b));
    assert_eq!(gathered.touched.len(), 2);
}

#[test]
fn apparent_value_moves_nothing() {
    let (a, b) = (account(1), account(2));
    let mut state = funded(&a, 100);
    let sp = spec(1024, true);
    let frame = CallCreateFrame::new_call_raw(
        params(a, b, ActionValue::Apparent(U256::from_u64(30)), CallType::DelegateCall),
        &env(),
        &sp,
        0,
        false,
    );
    let stack = FrameStack::new(Substate::new(), MultiObservers::with_no_tracing(), 0);
    let mut stack = run(stack.push(frame, &mut state, &sp));
    assert_eq!(state.balance(&a), U256::from_u64(100));
    assert!(!state.account_exists(&b));
    assert_eq!(stack.take_top_substate().touched.len(), 0);
}

#[test]
fn reverted_frame_restores_the_state() {
    let (a, b) = (account(1), account(2));
    let mut state = funded(&a, 100);
    let sp = spec(1024, false);
    let frame = CallCreateFrame::new_call_raw(
        params(a, b, ActionValue::Transfer(U256::from_u64(30)), CallType::Call),
        &env(),
        &sp,
        0,
        false,
    );
    let mut tx_substate = Substate::new();
    tx_substate.logs.push(log(9));
    let stack = FrameStack::new(tx_substate, MultiObservers::with_no_tracing(), 11);
    let mut stack = run(stack.push(frame, &mut state, &sp));
    state.set_storage(&b, vec![1], U256::from_u64(5));
    let mut gathered = stack.take_top_substate();
    gathered.logs.push(log(1));
    stack.put_top_substate(gathered);
    match stack.on_return(ok(false), &mut state) {
        FrameStep::Done(output) => {
            assert_eq!(output.substate.logs, vec![log(9)]);
            assert_eq!(output.base_gas_required, 11);
            assert!(output.result.is_ok());
        },
        other => panic!("unexpected step {:?}", other),
    }
    assert_eq!(state.balance(&a), U256::from_u64(100));
    assert!(!state.account_exists(&b));
    assert_eq!(state.storage_at(&b, &[1]), U256::zero());
}

#[test]
fn failed_frame_restores_the_state() {
    let (a, b) = (account(1), account(2));
    let mut state = funded(&a, 100);
    let sp = spec(1024, false);
    let frame = CallCreateFrame::new_call_raw(
        params(a, b, ActionValue::Transfer(U256::from_u64(30)), CallType::Call),
        &env(),
        &sp,
        0,
        false,
    );
    let stack = FrameStack::new(Substate::new(), MultiObservers::with_no_tracing(), 0);
    let stack = run(stack.push(frame, &mut state, &sp));
    match stack.on_return(Err(Error::OutOfGas), &mut state) {
        FrameStep::Done(output) => assert_eq!(output.result.unwrap_err(), Error::OutOfGas),
        other => panic!("unexpected step {:?}", other),
    }
    assert_eq!(state.balance(&a), U256::from_u64(100));
}

#[test]
fn inner_creation_is_recorded_before_outer() {
    let (a, outer, inner) = (account(1), account(2), account(3));
    let mut state = funded(&a, 100);
    let sp = spec(1024, false);
    let e = env();
    let root = CallCreateFrame::new_create_raw(
        params(a, outer, ActionValue::Transfer(U256::zero()), CallType::NoCall),
        &e,
        &sp,
        0,
        false,
    );
    let stack = FrameStack::new(Substate::new(), MultiObservers::with_no_tracing(), 0);
    let mut stack = run(stack.push(root, &mut state, &sp));
    let mut gathered = stack.take_top_substate();
    gathered.logs.push(log(1));
    stack.put_top_substate(gathered);

    let child = CallCreateFrame::new_create_raw(
        params(outer, inner, ActionValue::Transfer(U256::zero()), CallType::NoCall),
        &e,
        &sp,
        1,
        false,
    );
    let mut stack = run(stack.push(child, &mut state, &sp));
    assert_eq!(stack.depth(), 2);
    let mut gathered = stack.take_top_substate();
    gathered.logs.push(log(2));
    gathered.suicides.insert(inner);
    gathered.sstore_clears_refund = 3;
    stack.put_top_substate(gathered);

    let mut stack = match stack.on_return(ok(true), &mut state) {
        FrameStep::Resume(stack, handed) => {
            assert_eq!(handed.unwrap().gas_left, U256::from_u64(5));
            stack
        },
        other => panic!("unexpected step {:?}", other),
    };
    assert_eq!(stack.depth(), 1);
    let mut gathered = stack.take_top_substate();
    assert_eq!(gathered.logs, vec![log(1), log(2)]);
    gathered.logs.push(log(3));
    stack.put_top_substate(gathered);

    match stack.on_return(ok(true), &mut state) {
        FrameStep::Done(output) => {
            assert_eq!(output.substate.logs, vec![log(1), log(2), log(3)]);
            assert_eq!(output.substate.contracts_created, vec![inner, outer]);
            assert!(output.substate.suicides.contains(&inner));
            assert_eq!(output.substate.sstore_clears_refund, 3);
        },
        other => panic!("unexpected step {:?}", other),
    }
}

#[test]
fn reverted_child_leaves_the_parent_as_it_was() {
    let (a, b, c) = (account(1), account(2), account(3));
    let mut state = funded(&a, 100);
    let sp = spec(1024, false);
    let e = env();
    let root = CallCreateFrame::new_call_raw(
        params(a, b, ActionValue::Transfer(U256::from_u64(40)), CallType::Call),
        &e,
        &sp,
        0,
        false,
    );
    let stack = FrameStack::new(Substate::new(), MultiObservers::with_no_tracing(), 0);
    let stack = run(stack.push(root, &mut state, &sp));
    let child = CallCreateFrame::new_create_raw(
        params(b, c, ActionValue::Transfer(U256::from_u64(15)), CallType::NoCall),
        &e,
        &sp,
        1,
        false,
    );
    let mut stack = run(stack.push(child, &mut state, &sp));
    assert_eq!(state.balance(&c), U256::from_u64(15));
    let mut gathered = stack.take_top_substate();
    gathered.logs.push(log(2));
    stack.put_top_substate(gathered);
    let stack = match stack.on_return(ok(false), &mut state) {
        FrameStep::Resume(stack, _) => stack,
        other => panic!("unexpected step {:?}", other),
    };
    assert_eq!(state.balance(&b), U256::from_u64(40));
    assert_eq!(state.balance(&c), U256::zero());
    match stack.on_return(ok(true), &mut state) {
        FrameStep::Done(output) => {
            assert!(output.substate.logs.is_empty());
            assert!(output.substate.contracts_created.is_empty());
        },
        other => panic!("unexpected step {:?}", other),
    }
    assert_eq!(state.balance(&a), U256::from_u64(60));
}

#[test]
fn frame_below_the_depth_limit_is_refused() {
    let (a, b) = (account(1), account(2));
    let mut state = funded(&a, 100);
    let sp = spec(0, false);
    let e = env();
    let root = CallCreateFrame::new_call_raw(
        params(a, b, ActionValue::Transfer(U256::from_u64(1)), CallType::Call),
        &e,
        &sp,
        0,
        false,
    );
    let stack = FrameStack::new(Substate::new(), MultiObservers::with_no_tracing(), 0);
    let stack = run(stack.push(root, &mut state, &sp));
    let child = CallCreateFrame::new_call_raw(
        params(b, a, ActionValue::Transfer(U256::from_u64(1)), CallType::Call),
        &e,
        &sp,
        1,
        false,
    );
    match stack.push(child, &mut state, &sp) {
        FrameStep::Resume(stack, handed) => {
            assert_eq!(handed.unwrap_err(), Error::OutOfDepth);
            assert_eq!(stack.depth(), 1);
        },
        other => panic!("unexpected step {:?}", other),
    }
    assert_eq!(state.balance(&b), U256::from_u64(1));
}

#[test]
fn static_call_makes_a_static_frame() {
    let (a, b) = (account(1), account(2));
    let sp = spec(1024, false);
    let e = env();
    let frame = CallCreateFrame::new_call_raw(
        params(a, b, ActionValue::Apparent(U256::zero()), CallType::StaticCall),
        &e,
        &sp,
        3,
        false,
    );
    assert!(frame.static_flag);
    assert!(!frame.is_create);
    assert_eq!(frame.depth, 3);
    let frame = CallCreateFrame::new_call_raw(
        params(a, b, ActionValue::Apparent(U256::zero()), CallType::Call),
        &e,
        &sp,
        0,
        true,
    );
    assert!(frame.static_flag);
    let frame = CallCreateFrame::new_call_raw(
        params(a, b, ActionValue::Apparent(U256::zero()), CallType::Call),
        &e,
        &sp,
        0,
        false,
    );
    assert!(!frame.static_flag);
}

#[test]
fn frame_stack_info_inherits_static() {
    let mut info = FrameStackInfo::new();
    assert_eq!(info.depth(), 0);
    assert!(!info.in_static_context());
    info.push(false);
    assert!(!info.in_static_context());
    info.push(true);
    assert!(info.in_static_context());
    info.push(false);
    assert!(info.in_static_context());
    assert_eq!(info.depth(), 3);
    info.pop();
    info.pop();
    assert!(!info.in_static_context());
    info.pop();
    info.pop();
    assert_eq!(info.depth(), 0);
}

#[test]
fn contract_address_follows_sender_and_nonce() {
    let sender = Address { hi: 0x6ac7ea33, lo: 0xf8831ea9dcc53393aaa88b25a785dbf0 }.with_evm_space();
    let (created, code_hash) =
        contract_address(CreateContractAddress::FromSenderNonce, 0, &sender, &U256::zero(), &[]);
    assert_eq!(created.address, Address { hi: 0xcd234a47, lo: 0x1b72ba2f1ccf0a70fcaba648a5eecd8d });
    assert_eq!(created.space, Space::Ethereum);
    assert_eq!(
        code_hash,
        H256 { hi: 0xc5d2460186f7233c927e7db2dcc703c0, lo: 0xe500b653ca82273b7bfad8045d85a470 }
    );
    let (created, _) =
        contract_address(CreateContractAddress::FromSenderNonce, 0, &sender, &U256::from_u64(1), &[]);
    assert_eq!(created.address, Address { hi: 0x343c43a3, lo: 0x7d37dff08ae8c4a11544c718abb4fcf8 });
}

#[test]
fn keccak_of_nothing() {
    assert_eq!(
        keccak(&[]),
        H256 { hi: 0xc5d2460186f7233c927e7db2dcc703c0, lo: 0xe500b653ca82273b7bfad8045d85a470 }
    );
}

#[test]
fn context_logs_unless_static() {
    let (a, b) = (account(1), account(2));
    let sp = spec(1024, false);
    let e = env();
    let mut state = State::new(U256::zero());
    let mut substate = Substate::new();
    let mut callstack = FrameStackInfo::new();
    let p = params(a, b, ActionValue::Apparent(U256::zero()), CallType::Call);
    let topic = H256 { hi: 1, lo: 2 };
    {
        let mut context = InternalRefContext {
            env: &e,
            spec: &sp,
            callstack: &mut callstack,
            state: &mut state,
            substate: &mut substate,
            static_flag: false,
            depth: 0,
        };
        assert_eq!(context.log(&p, &sp, vec![topic], vec![7]), Ok(()));
        assert_eq!(context.set_storage(&p, vec![1, 2], U256::from_u64(99)), Ok(()));
        assert_eq!(context.storage_at(&p, &[1, 2]), Ok(U256::from_u64(99)));
        assert_eq!(context.storage_at(&p, &[1]), Ok(U256::zero()));
        assert_eq!(context.is_contract_address(&b.address), Ok(true));
        assert_eq!(context.is_contract_address(&Address { hi: 0x1000_0000, lo: 0 }), Ok(false));
    }
    assert_eq!(
        substate.logs,
        vec![LogEntry { address: b.address, topics: vec![topic], data: vec![7], space: Space::Ethereum }]
    );
    assert_eq!(state.storage_at(&b, &[1, 2]), U256::from_u64(99));
    {
        let mut context = InternalRefContext {
            env: &e,
            spec: &sp,
            callstack: &mut callstack,
            state: &mut state,
            substate: &mut substate,
            static_flag: true,
            depth: 1,
        };
        assert_eq!(context.log(&p, &sp, vec![], vec![8]), Err(Error::MutableCallInStaticContext));
    }
    assert_eq!(substate.logs.len(), 1);
}
