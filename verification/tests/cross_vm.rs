use cfx_evm::abi::{decode_bytes, encode_arguments};
use cfx_evm::address::{Address, Space};
use cfx_evm::executed::revert_reason_decode;
use cfx_evm::executor::{
    cross_space_contract_address, selector_and_arguments, CrossVMParams, CrossVMReturn, PreCheckResult, TXExecutor,
};
use cfx_evm::frame::{FrameStackOutput, FrameStep};
use cfx_evm::observer::MultiObservers;
use cfx_evm::state::State;
use cfx_evm::substate::Substate;
use cfx_evm::uint::U256;
use cfx_evm::vm::{ActionValue, CallType, CreateType, Env, FinalizationResult, ParamsType, Spec};

fn spec() -> Spec {
    Spec {
        tx_gas: 21000,
        tx_create_gas: 53000,
        tx_data_zero_gas: 4,
        tx_data_non_zero_gas: 68,
        account_start_nonce: U256::zero(),
        max_depth: 1024,
        track_touched: false,
    }
}

fn env() -> Env {
    Env {
        number: 1,
        timestamp: 0,
        author: Address::zero(),
        difficulty: U256::zero(),
        gas_limit: U256::from_u64(30_000_000),
        last_hashes: vec![],
    }
}

fn word(n: u8) -> Vec<u8> {
    let mut w = vec![0u8; 32];
    w[31] = n;
    w
}

fn cross_params(function_name: &str) -> CrossVMParams {
    CrossVMParams {
        receiver: Address { hi: 0x8000_0000, lo: 9 },
        function_name: function_name.to_string(),
        gas: U256::from_u64(5000),
        gas_price: U256::from_u64(2),
        value: U256::from_u64(77),
        evm_params: vec![vec![1, 2, 3], vec![], vec![9; 33]],
        caller_info: "abc".to_string(),
    }
}

#[test]
fn arguments_are_encoded_as_string_and_bytes_array() {
    let encoded = encode_arguments(b"abc", &vec![vec![1, 2, 3], vec![], vec![9; 33]]);
    let mut expected: Vec<u8> = vec![];
    expected.extend(word(0x40));
    expected.extend(word(0x80));
    expected.extend(word(3));
    let mut text = b"abc".to_vec();
    text.resize(32, 0);
    expected.extend(text);
    expected.extend(word(3));
    expected.extend(word(0x60));
    expected.extend(word(0xa0));
    expected.extend(word(0xc0));
    expected.extend(word(3));
    let mut first = vec![1u8, 2, 3];
    first.resize(32, 0);
    expected.extend(first);
    expected.extend(word(0));
    expected.extend(word(33));
    let mut third = vec![9u8; 33];
    third.resize(64, 0);
    expected.extend(third);
    assert_eq!(encoded, expected);
}

#[test]
fn empty_arguments_are_four_words() {
    let encoded = encode_arguments(b"", &vec![]);
    let mut expected: Vec<u8> = vec![];
    expected.extend(word(0x40));
    expected.extend(word(0x60));
    expected.extend(word(0));
    expected.extend(word(0));
    assert_eq!(encoded, expected);
}

#[test]
fn data_is_selector_and_arguments() {
    let params = cross_params("transfer");
    let data = params.data();
    let digest = keccak_hash::keccak("transfer(string,bytes[])");
    assert_eq!(&data[..4], &digest.0[..4]);
    assert_eq!(&data[4..], &encode_arguments(b"abc", &params.evm_params)[..]);
}

#[test]
fn data_is_empty_without_a_function() {
    assert_eq!(cross_params("").data(), Vec::<u8>::new());
}

#[test]
fn selector_is_the_first_four_bytes() {
    assert_eq!(selector_and_arguments(&[1, 2, 3, 4, 5, 6], vec![7, 8]), vec![1, 2, 3, 4, 7, 8]);
}

#[test]
fn cross_call_credits_the_cross_space_contract() {
    let mut state = State::new(U256::zero());
    let receiver = Address { hi: 0x8000_0000, lo: 9 }.with_evm_space();
    state.init_code(&receiver, vec![0x60, 0x00], cfx_evm::hash::keccak(&[0x60, 0x00]));
    let env = env();
    let spec = spec();
    let mut executor = TXExecutor::new(&mut state, &env, &spec);
    let pre = executor.cross_vm_call_preprocessing(cross_params("f"));
    let (top_frame, frame_stack) = match pre {
        PreCheckResult::Pass { top_frame, frame_stack } => (top_frame, frame_stack),
        PreCheckResult::Fail(outcome) => panic!("unexpected outcome {:?}", outcome),
    };
    let p = &top_frame.params;
    assert_eq!(p.sender, cross_space_contract_address());
    assert_eq!(p.sender, Address { hi: 0x0888_0000, lo: 6 });
    assert_eq!(p.original_sender, Address::zero());
    assert_eq!(p.address, receiver.address);
    assert_eq!(p.code_address, receiver.address);
    assert_eq!(p.space, Space::Ethereum);
    assert_eq!(p.gas, U256::from_u64(5000));
    assert_eq!(p.gas_price, U256::from_u64(2));
    assert_eq!(p.value, ActionValue::Transfer(U256::from_u64(77)));
    assert_eq!(p.code, Some(vec![0x60, 0x00]));
    assert_eq!(p.code_hash, Some(cfx_evm::hash::keccak(&[0x60, 0x00])));
    assert_eq!(p.data, Some(cross_params("f").data()));
    assert_eq!(p.call_type, CallType::Call);
    assert_eq!(p.create_type, CreateType::NoCreate);
    assert_eq!(p.params_type, ParamsType::Separate);
    assert_eq!(top_frame.depth, 0);
    assert!(!top_frame.static_flag);
    assert_eq!(frame_stack.depth(), 0);

    let cross = cross_space_contract_address().with_evm_space();
    assert_eq!(executor.state.balance(&cross), U256::from_u64(77));
    let stack = match frame_stack.push(top_frame, executor.state, &spec) {
        FrameStep::Run(stack) => stack,
        other => panic!("unexpected step {:?}", other),
    };
    assert_eq!(executor.state.balance(&cross), U256::zero());
    assert_eq!(executor.state.balance(&receiver), U256::from_u64(77));
    let result = Ok(FinalizationResult { gas_left: U256::from_u64(1), apply_state: true, return_data: vec![4] });
    match stack.on_return(result, executor.state) {
        FrameStep::Done(output) => {
            assert!(output.observer.tracer.is_none());
            assert_eq!(output.base_gas_required, 0);
            let back = CrossVMReturn::from_output(output);
            assert_eq!(back.result.unwrap().return_data, vec![4]);
            assert!(back.substate.logs.is_empty());
        },
        other => panic!("unexpected step {:?}", other),
    }
}

#[test]
fn from_output_keeps_substate_and_result() {
    let mut substate = Substate::new();
    substate.contracts_created.push(Address::zero().with_evm_space());
    let output = FrameStackOutput {
        substate,
        result: Err(cfx_evm::vm::Error::OutOfStack),
        observer: MultiObservers::with_no_tracing(),
        base_gas_required: 3,
    };
    let back = CrossVMReturn::from_output(output);
    assert_eq!(back.result.unwrap_err(), cfx_evm::vm::Error::OutOfStack);
    assert_eq!(back.substate.contracts_created.len(), 1);
}

fn error_data(reason: &str) -> Vec<u8> {
    let mut data = vec![8u8, 195, 121, 160];
    data.extend(word(0x20));
    let bytes = reason.as_bytes();
    let mut len = vec![0u8; 32];
    len[24..].copy_from_slice(&(bytes.len() as u64).to_be_bytes());
    data.extend(len);
    let mut padded = bytes.to_vec();
    while padded.len() % 32 != 0 {
        padded.push(0);
    }
    data.extend(padded);
    data
}

#[test]
fn short_reason_comes_back_whole() {
    assert_eq!(revert_reason_decode(&error_data("")), "");
    assert_eq!(revert_reason_decode(&error_data("out of funds")), "out of funds");
    let s49 = "a".repeat(49);
    assert_eq!(revert_reason_decode(&error_data(&s49)), s49);
}

#[test]
fn long_reason_is_cut_after_fifty_characters() {
    let s50 = "b".repeat(50);
    assert_eq!(revert_reason_decode(&error_data(&s50)), format!("{}...", s50));
    let s80 = "c".repeat(80);
    assert_eq!(revert_reason_decode(&error_data(&s80)), format!("{}...", "c".repeat(50)));
    let wide = "智".repeat(60);
    assert_eq!(revert_reason_decode(&error_data(&wide)), format!("{}...", "智".repeat(50)));
    let wide = "智".repeat(30);
    assert_eq!(revert_reason_decode(&error_data(&wide)), wide);
}

#[test]
fn unknown_selector_is_shown_in_hex() {
    let mut data = error_data("x");
    data[0] = 9;
    let shown = revert_reason_decode(&data);
    assert!(shown.starts_with("0x09c379a0"));
    assert_eq!(shown.len(), 2 + 2 * data.len());
    assert_eq!(revert_reason_decode(&[0xab, 0xcd, 0xef, 0x01, 0x23]), "0xabcdef0123");
}

#[test]
fn broken_reason_is_shown_in_hex() {
    let mut data = error_data("abcd");
    let n = data.len();
    data[n - 32] = 0xff;
    assert!(revert_reason_decode(&data).starts_with("0x08c379a0"));
    let mut short = error_data("abcd");
    short.truncate(4 + 32 + 32 + 2);
    assert!(revert_reason_decode(&short).starts_with("0x08c379a0"));
    let mut far = vec![8u8, 195, 121, 160];
    far.extend(vec![0xffu8; 32]);
    assert!(revert_reason_decode(&far).starts_with("0x08c379a0ffff"));
}

#[test]
fn decode_follows_the_offset() {
    let mut data = word(0x40);
    data.extend(vec![0xeeu8; 32]);
    data.extend(word(2));
    data.extend(vec![5u8, 6, 0, 0]);
    assert_eq!(decode_bytes(&data), Some(vec![5, 6]));
    assert_eq!(decode_bytes(&data[..95]), None);
    assert_eq!(decode_bytes(&[0u8; 31]), None);
}
