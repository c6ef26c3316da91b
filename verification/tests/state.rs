use cfx_evm::address::{Address, AddressWithSpace, Space};
use cfx_evm::address_set::AddressSet;
use cfx_evm::contracts::{all_internal_contracts, InternalContract};
use cfx_evm::executed::{Executed, ExecutionOutcome, TxDropError};
use cfx_evm::observer::{AddressPocket, ExecTrace, MultiObservers, StateTracer, VmStep, VmTracer};
use cfx_evm::schema::{decode_value, encode_value, ensure_slice_len_eq, HashValue, SchemaError};
use cfx_evm::state::{Account, CleanupMode, State};
use cfx_evm::statedb::{ComputeEpochDebugRecord, DbError, StateDb, StateDbTrait, StateKey, Write};
use cfx_evm::substate::{LogEntry, Substate};
use cfx_evm::transaction::{Action, Transaction};
use cfx_evm::uint::{U256, U512};
use cfx_evm::vm::{ActionValue, Spec};
use cfx_evm::address::H256;
use cfx_evm::executor::{checked_gas_required_for, gas_required_for};

fn account(n: u128) -> AddressWithSpace {
    Address { hi: 0x1000_0000, lo: n }.with_evm_space()
}

#[test]
fn accounts_are_created_on_demand() {
    let a = account(1);
    let mut state = State::new(U256::from_u64(500));
    let mut touched = AddressSet::new();
    assert!(!state.account_exists(&a));
    assert_eq!(state.balance(&a), U256::zero());
    assert_eq!(state.nonce(&a), U256::zero());
    assert_eq!(state.code(&a), None);
    assert_eq!(state.code_hash(&a), None);
    state.add_balance(&a, &U256::zero(), CleanupMode::TrackTouched, &mut touched, U256::from_u64(3));
    assert!(!state.account_exists(&a));
    assert!(touched.contains(&a));
    state.add_balance(&a, &U256::from_u64(9), CleanupMode::NoEmpty, &mut touched, U256::from_u64(3));
    assert!(state.account_exists(&a));
    assert_eq!(state.balance(&a), U256::from_u64(9));
    assert_eq!(state.nonce(&a), U256::from_u64(3));
    state.inc_nonce(&a, &U256::from_u64(100));
    assert_eq!(state.nonce(&a), U256::from_u64(4));
    let b = account(2);
    state.inc_nonce(&b, &U256::from_u64(100));
    assert_eq!(state.nonce(&b), U256::from_u64(101));
    assert_eq!(state.balance(&b), U256::zero());
    assert_eq!(state.total_issued(), U256::from_u64(500));
}

#[test]
fn balances_move() {
    let (a, b) = (account(1), account(2));
    let mut state = State::new(U256::zero());
    let mut touched = AddressSet::new();
    state.add_balance(&a, &U256::from_u64(50), CleanupMode::NoEmpty, &mut touched, U256::zero());
    state.sub_balance(&a, &U256::from_u64(20), CleanupMode::TrackTouched, &mut touched);
    state.add_balance(&b, &U256::from_u64(20), CleanupMode::NoEmpty, &mut touched, U256::zero());
    assert_eq!(state.balance(&a), U256::from_u64(30));
    assert_eq!(state.balance(&b), U256::from_u64(20));
    assert_eq!(touched.len(), 1);
    assert!(touched.contains(&a));
    assert!(!touched.contains(&b));
    state.sub_balance(&a, &U256::from_u64(30), CleanupMode::NoEmpty, &mut touched);
    assert_eq!(state.balance(&a), U256::zero());
    assert!(state.account_exists(&a));
}

#[test]
fn storage_is_kept_by_key() {
    let a = account(1);
    let mut state = State::new(U256::zero());
    assert_eq!(state.storage_at(&a, &[1]), U256::zero());
    state.set_storage(&a, vec![1], U256::from_u64(10));
    state.set_storage(&a, vec![1, 0], U256::from_u64(20));
    state.set_storage(&a, vec![1], U256::from_u64(30));
    assert_eq!(state.storage_at(&a, &[1]), U256::from_u64(30));
    assert_eq!(state.storage_at(&a, &[1, 0]), U256::from_u64(20));
    assert_eq!(state.storage_at(&a, &[]), U256::zero());
    assert_eq!(state.storage_at(&account(2), &[1]), U256::zero());
}

#[test]
fn removed_contract_is_gone() {
    let a = account(1);
    let mut state = State::new(U256::from_u64(100));
    let mut touched = AddressSet::new();
    state.add_balance(&a, &U256::from_u64(42), CleanupMode::NoEmpty, &mut touched, U256::zero());
    state.init_code(&a, vec![1, 2], H256 { hi: 1, lo: 1 });
    state.set_storage(&a, vec![5], U256::from_u64(6));
    assert_eq!(state.code(&a), Some(vec![1, 2]));
    assert_eq!(state.code_hash(&a), Some(H256 { hi: 1, lo: 1 }));
    state.remove_contract(&a);
    assert!(!state.account_exists(&a));
    assert_eq!(state.code(&a), None);
    assert_eq!(state.balance(&a), U256::zero());
    assert_eq!(state.storage_at(&a, &[5]), U256::zero());
    state.remove_contract(&a);
    state.subtract_total_issued(U256::from_u64(42));
    assert_eq!(state.total_issued(), U256::from_u64(58));
    state.subtract_total_issued(U256::from_u64(1000));
    assert_eq!(state.total_issued(), U256::zero());
}

#[test]
fn snapshot_is_independent() {
    let a = account(1);
    let mut state = State::new(U256::from_u64(7));
    state.set_storage(&a, vec![5], U256::from_u64(6));
    state.init_code(&a, vec![1], H256 { hi: 0, lo: 2 });
    let copy = state.snapshot();
    state.set_storage(&a, vec![5], U256::from_u64(8));
    state.remove_contract(&a);
    assert!(copy.account_exists(&a));
    assert_eq!(copy.storage_at(&a, &[5]), U256::from_u64(6));
    assert_eq!(copy.code(&a), Some(vec![1]));
    assert_eq!(copy.total_issued(), U256::from_u64(7));
}

#[test]
fn account_storage_overrides() {
    let mut account = Account {
        balance: U256::zero(),
        nonce: U256::zero(),
        code: None,
        code_hash: None,
        storage: vec![],
    };
    account.set_storage(vec![1], U256::from_u64(1));
    account.set_storage(vec![2], U256::from_u64(2));
    account.set_storage(vec![1], U256::from_u64(3));
    assert_eq!(account.storage_at(&[1]), U256::from_u64(3));
    assert_eq!(account.storage_at(&[2]), U256::from_u64(2));
    assert_eq!(account.storage.len(), 2);
    let copy = account.duplicate();
    assert_eq!(copy.storage_at(&[1]), U256::from_u64(3));
}

#[test]
fn address_set_keeps_first_order() {
    let mut set = AddressSet::new();
    set.insert(account(3));
    set.insert(account(1));
    set.insert(account(3));
    assert_eq!(set.len(), 2);
    assert_eq!(set.get(0), account(3));
    assert_eq!(set.get(1), account(1));
    let mut other = AddressSet::new();
    other.insert(account(1));
    other.insert(account(2));
    set.extend(&other);
    assert_eq!(set.len(), 3);
    assert!(set.contains(&account(2)));
    assert!(!set.contains(&account(4)));
}

fn log(n: u8) -> LogEntry {
    LogEntry { address: Address::zero(), topics: vec![], data: vec![n], space: Space::Ethereum }
}

fn substate(logs: &[u8], created: &[u128], suicides: &[u128], refund: u128) -> Substate {
    let mut s = Substate::new();
    for l in logs {
        s.logs.push(log(*l));
    }
    for c in created {
        s.contracts_created.push(account(*c));
    }
    for k in suicides {
        s.suicides.insert(account(*k));
        s.touched.insert(account(*k + 100));
    }
    s.sstore_clears_refund = refund;
    s
}

#[test]
fn accrue_joins_in_order() {
    let mut parent = substate(&[1, 2], &[10], &[1, 2], 5);
    parent.accrue(substate(&[3], &[11, 12], &[2, 3], 7));
    assert_eq!(parent.logs, vec![log(1), log(2), log(3)]);
    assert_eq!(parent.contracts_created, vec![account(10), account(11), account(12)]);
    assert_eq!(parent.suicides.len(), 3);
    assert_eq!(parent.touched.len(), 3);
    assert!(parent.suicides.contains(&account(3)));
    assert!(parent.touched.contains(&account(103)));
    assert_eq!(parent.sstore_clears_refund, 12);
}

#[test]
fn accrue_is_associative() {
    let mut left = substate(&[1], &[10], &[1], 1);
    left.accrue(substate(&[2], &[20], &[2], 2));
    left.accrue(substate(&[3], &[30], &[1, 3], 3));
    let mut inner = substate(&[2], &[20], &[2], 2);
    inner.accrue(substate(&[3], &[30], &[1, 3], 3));
    let mut right = substate(&[1], &[10], &[1], 1);
    right.accrue(inner);
    assert_eq!(left.logs, right.logs);
    assert_eq!(left.contracts_created, right.contracts_created);
    assert_eq!(left.sstore_clears_refund, right.sstore_clears_refund);
    assert_eq!(left.suicides.len(), right.suicides.len());
    for n in 1..=3u128 {
        assert!(left.suicides.contains(&account(n)));
        assert!(right.suicides.contains(&account(n)));
    }
}

#[test]
fn accrue_is_commutative_on_sets() {
    let mut ab = substate(&[1], &[], &[1, 2], 1);
    ab.accrue(substate(&[2], &[], &[2, 3], 2));
    let mut ba = substate(&[2], &[], &[2, 3], 2);
    ba.accrue(substate(&[1], &[], &[1, 2], 1));
    assert_eq!(ab.suicides.len(), ba.suicides.len());
    for n in 1..=3u128 {
        assert_eq!(ab.suicides.contains(&account(n)), ba.suicides.contains(&account(n)));
        assert_eq!(ab.touched.contains(&account(n + 100)), ba.touched.contains(&account(n + 100)));
    }
    assert_eq!(ab.sstore_clears_refund, ba.sstore_clears_refund);
    assert_ne!(ab.logs, ba.logs);
}

#[test]
fn all_internal_contracts_in_order() {
    assert_eq!(
        all_internal_contracts(),
        vec![
            InternalContract::Context,
            InternalContract::CrossSpaceCall,
            InternalContract::SystemStorage,
            InternalContract::Reserved3,
            InternalContract::Reserved8,
            InternalContract::Reserved9,
            InternalContract::Reserved11,
        ]
    );
}

#[test]
fn uint_arithmetic() {
    let max = U256::max_value();
    let one = U256::from_u64(1);
    assert_eq!(max.checked_add(&one), None);
    assert_eq!(U256::zero().checked_sub(&one), None);
    assert_eq!(U256::zero().saturating_sub(&one), U256::zero());
    let big = U256 { l0: u64::MAX, l1: u64::MAX, l2: 0, l3: 0 };
    assert_eq!(big.add(&one), U256 { l0: 0, l1: 0, l2: 1, l3: 0 });
    assert_eq!(U256 { l0: 0, l1: 0, l2: 1, l3: 0 }.sub(&one), big);
    assert!(big.lt(&max));
    assert!(!max.lt(&big));
    assert!(!big.lt(&big));
    assert!(!big.fits_u64());
    assert!(U256::from_u64(u64::MAX).fits_u64());
    assert_eq!(U256::from_u64(17).as_u64(), 17);
    assert!(U256::zero().is_zero());
    let (sum, carry) = max.carrying_add(&max, 1);
    assert_eq!(sum, max);
    assert_eq!(carry, 1);
    let wide = U512::from_u256(&max);
    assert_eq!(wide.to_u256(), Some(max));
    let twice = wide.checked_add(&wide).unwrap();
    assert_eq!(twice.to_u256(), None);
    assert_eq!(twice.hi, one);
    assert!(wide.lt(&twice));
    assert_eq!(twice.min(&wide), wide);
    let top = U512 { lo: max, hi: max };
    assert_eq!(top.checked_add(&U512::from_u256(&one)), None);
}

#[test]
fn base_gas_overflow_is_told() {
    let spec = Spec {
        tx_gas: usize::MAX,
        tx_create_gas: 1,
        tx_data_zero_gas: 1,
        tx_data_non_zero_gas: 1,
        account_start_nonce: U256::zero(),
        max_depth: 1,
        track_touched: false,
    };
    if usize::MAX as u128 == u64::MAX as u128 {
        assert_eq!(checked_gas_required_for(false, &[0], &spec), None);
    }
    assert_eq!(checked_gas_required_for(true, &[0, 1], &spec), Some(3));
    assert_eq!(gas_required_for(true, &[0, 1], &spec), 3);
}

#[test]
fn records_of_a_charged_transaction() {
    let tx = Transaction {
        sender: account(1),
        nonce: U256::zero(),
        gas: U256::from_u64(100),
        gas_price: U256::from_u64(7),
        value: U256::zero(),
        action: Action::Create,
        data: vec![],
    };
    let spec = Spec {
        tx_gas: 1,
        tx_create_gas: 1,
        tx_data_zero_gas: 1,
        tx_data_non_zero_gas: 1,
        account_start_nonce: U256::zero(),
        max_depth: 1,
        track_touched: false,
    };
    let e = Executed::not_enough_balance_fee_charged(&tx, &U256::from_u64(50), vec![], &spec);
    assert_eq!(e.gas_used, U256::from_u64(100));
    assert_eq!(e.gas_charged, U256::from_u64(7));
    assert_eq!(e.fee, U256::from_u64(50));
    assert_eq!(e.estimated_gas_limit, None);
    let e = Executed::execution_error_fully_charged(&tx, vec![], &spec);
    assert_eq!(e.gas_charged, U256::from_u64(100));
    assert_eq!(e.fee, U256::from_u64(700));
    let mut free = tx.clone();
    free.gas_price = U256::zero();
    let e = Executed::not_enough_balance_fee_charged(&free, &U256::from_u64(50), vec![], &spec);
    assert_eq!(e.gas_charged, U256::zero());
    assert!(ExecutionOutcome::Finished(e.clone()).successfully_executed() == Some(e));
    assert!(ExecutionOutcome::NotExecutedDrop(TxDropError::OldNonce(U256::zero(), U256::zero()))
        .successfully_executed()
        .is_none());
    assert_eq!(ActionValue::Transfer(U256::from_u64(3)).value(), U256::from_u64(3));
    assert_eq!(ActionValue::Apparent(U256::from_u64(4)).value(), U256::from_u64(4));
}

#[test]
fn observers_record_when_present() {
    let mut none = MultiObservers::with_no_tracing();
    none.trace_internal_transfer(AddressPocket::GasPayment, AddressPocket::MintBurn, U256::from_u64(1));
    assert_eq!(none.drain_trace(), vec![]);
    let mut some = MultiObservers { tracer: Some(StateTracer::new()), vm_tracer: Some(VmTracer::new()), gas_man: None };
    some.trace_internal_transfer(AddressPocket::GasPayment, AddressPocket::MintBurn, U256::from_u64(1));
    some.trace_internal_transfer(
        AddressPocket::StorageCollateral(account(1)),
        AddressPocket::Balance(account(1)),
        U256::from_u64(2),
    );
    if let Some(t) = some.vm_tracer.as_mut() {
        t.trace_step(VmStep { pc: 1, instruction: 0x60, gas_left: U256::from_u64(9) });
    }
    assert_eq!(some.vm_tracer.as_ref().unwrap().steps.len(), 1);
    assert_eq!(
        some.drain_trace(),
        vec![
            ExecTrace::InternalTransfer {
                from: AddressPocket::GasPayment,
                to: AddressPocket::MintBurn,
                value: U256::from_u64(1),
            },
            ExecTrace::InternalTransfer {
                from: AddressPocket::StorageCollateral(account(1)),
                to: AddressPocket::Balance(account(1)),
                value: U256::from_u64(2),
            },
        ]
    );
}

#[test]
fn schema_round_trips() {
    let hash = HashValue { hash: H256 { hi: 0x0102030405060708090a0b0c0d0e0f10, lo: 0x1112131415161718191a1b1c1d1e1f20 } };
    let key = hash.encode_key().unwrap();
    assert_eq!(key, (1u8..=32).collect::<Vec<u8>>());
    assert_eq!(HashValue::decode_key(&key), Ok(hash));
    assert_eq!(
        HashValue::decode_key(&key[..31]),
        Err(SchemaError::UnexpectedDataLength { expected: 32, got: 31 })
    );
    let value = encode_value(&0x0102030405060708u64).unwrap();
    assert_eq!(value, vec![1, 2, 3, 4, 5, 6, 7, 8]);
    assert_eq!(decode_value(&value), Ok(0x0102030405060708u64));
    assert_eq!(decode_value(&[0; 9]), Err(SchemaError::UnexpectedDataLength { expected: 8, got: 9 }));
    assert_eq!(decode_value(&[]), Err(SchemaError::UnexpectedDataLength { expected: 8, got: 0 }));
    assert_eq!(ensure_slice_len_eq(&[1, 2], 2), Ok(()));
}

fn key(n: u8) -> StateKey {
    StateKey { bytes: vec![n] }
}

#[test]
fn staged_writes_are_read_back_and_committed() {
    let mut db = StateDb::new();
    let mut ledger = ComputeEpochDebugRecord::new();
    assert_eq!(db.get_raw(key(1)), Ok::<_, DbError>(None));
    db.set_raw(key(1), vec![10], Some(&mut ledger)).unwrap();
    db.set_raw(key(2), vec![20], None).unwrap();
    assert_eq!(db.get_raw(key(1)), Ok(Some(vec![10])));
    db.delete(key(1), Some(&mut ledger)).unwrap();
    assert_eq!(db.get_raw(key(1)), Ok(None));
    assert_eq!(db.get_raw(key(2)), Ok(Some(vec![20])));
    assert_eq!(db.epoch(), None);
    db.commit(H256 { hi: 0, lo: 5 }, Some(&mut ledger)).unwrap();
    assert_eq!(db.epoch(), Some(H256 { hi: 0, lo: 5 }));
    assert_eq!(db.get_raw(key(1)), Ok(None));
    assert_eq!(db.get_raw(key(2)), Ok(Some(vec![20])));
    db.set_raw(key(1), vec![11], None).unwrap();
    db.delete(key(2), None).unwrap();
    assert_eq!(db.get_raw(key(1)), Ok(Some(vec![11])));
    assert_eq!(db.get_raw(key(2)), Ok(None));
    assert_eq!(
        ledger.writes,
        vec![Write { key: vec![1], value: Some(vec![10]) }, Write { key: vec![1], value: None }]
    );
}
