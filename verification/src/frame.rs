//! Call and create frames, and the stack on which they nest.
//!
//! The virtual machine is not part of this library. The stack is therefore a state
//! machine: whoever drives the machine tells the stack that a frame is to be entered or
//! that the top frame has returned, and the stack answers what is to happen next.

use crate::address::{Address, AddressWithSpace, Space, H256};
use crate::hash::{address_from_hash, h256_from_bytes, keccak, keccak256, keccak_digest};
use crate::observer::{AddressPocket, MultiObservers};
use crate::rlp::{encode_sender_nonce, rlp_sender_nonce};
use crate::state::{touched_after, State, WorldState};
use crate::substate::{FrameStackInfo, Substate, SubstateModel};
use crate::uint::{pow256, U256};
use crate::vm::{
    ActionParams, ActionParamsModel, ActionValue, CallType, CreateContractAddress, Env, Error, FinalizationResult,
    Spec,
};
use vstd::prelude::*;

verus! {

/// The address of the contract that `sender` creates at `nonce`: the last twenty bytes
/// of the Keccak-256 digest of the encoded list of the sender's address and the nonce, in
/// the Ethereum space.
pub open spec fn spec_contract_address(sender: AddressWithSpace, nonce: U256) -> AddressWithSpace {
    AddressWithSpace {
        address: address_from_hash(keccak256(rlp_sender_nonce(sender.address, nonce))),
        space: Space::Ethereum,
    }
}

/// Derives the address of a new contract, and hashes its code.
pub fn contract_address(
    _scheme: CreateContractAddress,
    _block_number: u64,
    sender: &AddressWithSpace,
    nonce: &U256,
    code: &[u8],
) -> (r: (AddressWithSpace, H256))
    ensures
        r.0 == spec_contract_address(*sender, *nonce),
        r.1 == h256_from_bytes(keccak256(code@)),
{
    let encoded = encode_sender_nonce(&sender.address, nonce);
    let digest = keccak_digest(encoded.as_slice());
    let address = Address::from_hash(digest.as_slice());
    (address.with_evm_space(), keccak(code))
}

/// One invocation of the virtual machine, before it is entered.
#[derive(Debug)]
pub struct CallCreateFrame {
    pub params: ActionParams,
    /// Whether the frame creates a contract.
    pub is_create: bool,
    /// How many frames lie below this one.
    pub depth: usize,
    /// Whether the frame, and every frame above it, may change no state.
    pub static_flag: bool,
}

impl CallCreateFrame {
    /// A frame that calls. It is static where the frame below it is, or where the call
    /// itself is a static call.
    pub fn new_call_raw(params: ActionParams, _env: &Env, _spec: &Spec, depth: usize, parent_static_flag: bool) -> (r:
        CallCreateFrame)
        ensures
            r.params == params,
            !r.is_create,
            r.depth == depth,
            r.static_flag == (parent_static_flag || params.call_type == CallType::StaticCall),
    {
        let static_flag = parent_static_flag || params.call_type == CallType::StaticCall;
        CallCreateFrame { params, is_create: false, depth, static_flag }
    }

    /// A frame that creates a contract.
    pub fn new_create_raw(params: ActionParams, _env: &Env, _spec: &Spec, depth: usize, static_flag: bool) -> (r:
        CallCreateFrame)
        ensures
            r.params == params,
            r.is_create,
            r.depth == depth,
            r.static_flag == static_flag,
    {
        CallCreateFrame { params, is_create: true, depth, static_flag }
    }

    /// The account that pays the frame's value.
    pub open spec fn payer(&self) -> AddressWithSpace {
        AddressWithSpace { address: self.params.sender, space: self.params.space }
    }

    /// The account in whose name the frame runs, and which receives the frame's value.
    pub open spec fn receiver(&self) -> AddressWithSpace {
        AddressWithSpace { address: self.params.address, space: self.params.space }
    }

    /// The amount that moves when the frame is entered.
    pub open spec fn transfer(&self) -> nat {
        match self.params.value {
            ActionValue::Transfer(v) => v@,
            ActionValue::Apparent(_) => 0,
        }
    }

    /// The state after the frame's value moved from the payer to the receiver.
    pub open spec fn state_after_entry(&self, ws: WorldState, spec: Spec) -> WorldState {
        ws.sub_balance(self.payer(), self.transfer()).add_balance(
            self.receiver(),
            self.transfer(),
            spec.account_start_nonce@,
        )
    }

    /// Whether the frame's value can move: the payer holds it, and the receiver's balance
    /// stays within 256 bits.
    pub open spec fn can_enter(&self, ws: WorldState) -> bool {
        &&& ws.balance(self.payer()) >= self.transfer()
        &&& ws.sub_balance(self.payer(), self.transfer()).balance(self.receiver()) + self.transfer() < pow256()
    }

    /// Whether the frame's value can move in the given state.
    pub fn can_enter_in(&self, state: &State) -> (r: bool)
        ensures
            r == self.can_enter(state@),
    {
        let payer = self.params.sender.with_space(self.params.space);
        let receiver = self.params.address.with_space(self.params.space);
        let held = state.balance(&payer);
        let received = state.balance(&receiver);
        proof {
            held.lemma_bounded();
            received.lemma_bounded();
        }
        match self.params.value {
            ActionValue::Apparent(_) => true,
            ActionValue::Transfer(v) => {
                if held.lt(&v) {
                    false
                } else if payer == receiver || v.is_zero() {
                    true
                } else {
                    received.checked_add(&v).is_some()
                }
            },
        }
    }

    /// What the frame has gathered right after it was entered: the addresses that the
    /// movement of its value touched, where the schedule tracks them.
    pub open spec fn substate_after_entry(&self, spec: Spec) -> SubstateModel {
        SubstateModel {
            touched: if self.params.value is Transfer {
                touched_after(
                    spec.spec_cleanup_mode(),
                    touched_after(spec.spec_cleanup_mode(), Set::empty(), self.payer()),
                    self.receiver(),
                )
            } else {
                Set::empty()
            },
            ..SubstateModel::empty()
        }
    }
}

/// A frame on the stack, as mathematics.
pub struct FrameModel {
    pub params: ActionParamsModel,
    pub is_create: bool,
    pub depth: nat,
    pub static_flag: bool,
    /// What the frame has gathered so far.
    pub substate: SubstateModel,
    /// The state as it was before the frame was entered.
    pub checkpoint: WorldState,
    /// The sum of all balances before the frame was entered.
    pub checkpoint_total_balance: nat,
}

/// A frame that was entered, with what it has gathered and the state to go back to.
#[derive(Debug)]
struct RunningFrame {
    frame: CallCreateFrame,
    substate: Substate,
    checkpoint: State,
}

impl RunningFrame {
    spec fn model(self) -> FrameModel {
        FrameModel {
            params: self.frame.params@,
            is_create: self.frame.is_create,
            depth: self.frame.depth as nat,
            static_flag: self.frame.static_flag,
            substate: self.substate@,
            checkpoint: self.checkpoint@,
            checkpoint_total_balance: self.checkpoint.total_balance(),
        }
    }
}

/// The stack of frames of one transaction, with what the transaction has gathered below
/// all frames.
#[derive(Debug)]
pub struct FrameStack {
    frames: Vec<RunningFrame>,
    tx_substate: Substate,
    observer: MultiObservers,
    base_gas_required: u64,
    callstack: FrameStackInfo,
}

/// [`FrameStack`] as mathematics.
pub struct FrameStackModel {
    /// The frames, the root frame first.
    pub frames: Seq<FrameModel>,
    pub tx_substate: SubstateModel,
    pub base_gas_required: u64,
    /// The static flag of every frame, the root frame first.
    pub static_flags: Seq<bool>,
}

/// What the frame stack hands back when the root frame has returned.
#[derive(Debug)]
pub struct FrameStackOutput {
    pub substate: Substate,
    pub result: Result<FinalizationResult, Error>,
    pub observer: MultiObservers,
    pub base_gas_required: u64,
}

/// What is to happen next.
#[derive(Debug)]
pub enum FrameStep {
    /// A frame was entered: the virtual machine is to run it.
    Run(FrameStack),
    /// The frame that is now on top is to go on, with this result of what it asked for.
    Resume(FrameStack, Result<FinalizationResult, Error>),
    /// The root frame has returned.
    Done(FrameStackOutput),
}

/// Whether a frame's effects are kept: it ended without an error and asked for them to
/// be applied.
pub open spec fn keeps_state(result: Result<FinalizationResult, Error>) -> bool {
    result matches Ok(r) && r.apply_state
}

/// What lies below a frame has gathered, after the frame returned. Where the frame's
/// effects are kept, what it gathered is folded in, and a frame that created a contract
/// adds that contract's address after everything that was created inside it. Where they
/// are not kept, nothing is added.
pub open spec fn substate_after_return(
    below: SubstateModel,
    top: FrameModel,
    result: Result<FinalizationResult, Error>,
) -> SubstateModel {
    if keeps_state(result) {
        let merged = below.accrue(top.substate);
        if top.is_create {
            SubstateModel {
                contracts_created: merged.contracts_created.push(
                    AddressWithSpace { address: top.params.address, space: top.params.space },
                ),
                ..merged
            }
        } else {
            merged
        }
    } else {
        below
    }
}

impl View for FrameStack {
    type V = FrameStackModel;

    closed spec fn view(&self) -> FrameStackModel {
        FrameStackModel {
            frames: self.frames@.map_values(|f: RunningFrame| f.model()),
            tx_substate: self.tx_substate@,
            base_gas_required: self.base_gas_required,
            static_flags: self.callstack@,
        }
    }
}

impl FrameStack {
    /// The observers that ride along.
    pub closed spec fn spec_observer(&self) -> MultiObservers {
        self.observer
    }

    /// A stack without frames.
    pub fn new(tx_substate: Substate, observer: MultiObservers, base_gas_required: u64) -> (r: FrameStack)
        ensures
            r@ == (FrameStackModel {
                frames: Seq::empty(),
                tx_substate: tx_substate@,
                base_gas_required,
                static_flags: Seq::empty(),
            }),
            r.spec_observer() == observer,
    {
        let r = FrameStack {
            frames: Vec::new(),
            tx_substate,
            observer,
            base_gas_required,
            callstack: FrameStackInfo::new(),
        };
        assert(r@.frames =~= Seq::empty());
        r
    }

    /// The number of frames on the stack.
    pub fn depth(&self) -> (r: usize)
        ensures
            r == self@.frames.len(),
    {
        self.frames.len()
    }

    /// The frame that a stack holds after `frame` was entered from the state `ws`.
    pub open spec fn entered(frame: CallCreateFrame, ws: WorldState, total_balance: nat, spec: Spec) -> FrameModel {
        FrameModel {
            params: frame.params@,
            is_create: frame.is_create,
            depth: frame.depth as nat,
            static_flag: frame.static_flag,
            substate: frame.substate_after_entry(spec),
            checkpoint: ws,
            checkpoint_total_balance: total_balance,
        }
    }

    /// Enters a frame on top of the stack, unless it would lie deeper than the schedule
    /// allows: then nothing is entered, and the frame that asked goes on with
    /// `OutOfDepth`. On entry the state is remembered, and the frame's value moves from
    /// the payer to the receiver.
    pub fn push(self, frame: CallCreateFrame, state: &mut State, spec: &Spec) -> (r: FrameStep)
        requires
            frame.depth == self@.frames.len(),
            frame.depth <= spec.max_depth ==> frame.can_enter(old(state)@),
        ensures
            frame.depth > spec.max_depth ==> r == FrameStep::Resume(self, Err(Error::OutOfDepth)) && *final(state)
                == *old(state),
            frame.depth <= spec.max_depth ==> {
                &&& r matches FrameStep::Run(stack)
                &&& stack@ == (FrameStackModel {
                    frames: self@.frames.push(
                        Self::entered(frame, old(state)@, old(state).total_balance(), *spec),
                    ),
                    static_flags: self@.static_flags.push(
                        frame.static_flag || (self@.static_flags.len() > 0 && self@.static_flags.last()),
                    ),
                    ..self@
                })
                &&& stack.spec_observer() == self.spec_observer()
                &&& final(state)@ == frame.state_after_entry(old(state)@, *spec)
                &&& final(state).total_balance() == old(state).total_balance()
            },
    {
        if frame.depth > spec.max_depth {
            return FrameStep::Resume(self, Err(Error::OutOfDepth));
        }
        let mut stack = self;
        let checkpoint = state.snapshot();
        let mut substate = Substate::new();
        let mode = spec.cleanup_mode();
        let payer = frame.params.sender.with_space(frame.params.space);
        let receiver = frame.params.address.with_space(frame.params.space);
        match frame.params.value {
            ActionValue::Transfer(v) => {
                state.sub_balance(&payer, &v, mode, &mut substate.touched);
                state.add_balance(&receiver, &v, mode, &mut substate.touched, spec.account_start_nonce);
            },
            ActionValue::Apparent(_) => {},
        }
        stack.callstack.push(frame.static_flag);
        let ghost before = stack.frames@;
        let running = RunningFrame { frame, substate, checkpoint };
        assert(running.model() == Self::entered(frame, old(state)@, old(state).total_balance(), *spec));
        stack.frames.push(running);
        assert(stack@.frames =~= self@.frames.push(running.model()));
        FrameStep::Run(stack)
    }

    /// What lies directly below the top frame has gathered: the frame below it, or, under
    /// the root frame, the transaction itself.
    pub open spec fn below_top(model: FrameStackModel) -> SubstateModel {
        if model.frames.len() >= 2 {
            model.frames[model.frames.len() - 2].substate
        } else {
            model.tx_substate
        }
    }

    /// Folds what a frame gathered into what lies below it, as `substate_after_return`
    /// says.
    fn settle(below: &mut Substate, gathered: Substate, created: Option<AddressWithSpace>, keep: bool)
        requires
            keep ==> old(below).sstore_clears_refund + gathered.sstore_clears_refund <= u128::MAX,
        ensures
            final(below)@ == if keep {
                let merged = old(below)@.accrue(gathered@);
                match created {
                    Some(a) => SubstateModel { contracts_created: merged.contracts_created.push(a), ..merged },
                    None => merged,
                }
            } else {
                old(below)@
            },
    {
        if keep {
            below.accrue(gathered);
            match created {
                Some(a) => {
                    below.contracts_created.push(a);
                },
                None => {},
            }
        }
    }

    /// Takes the top frame, which has returned with `result`, off the stack. Where its
    /// effects are kept, what it gathered is folded into what lies below it; where they
    /// are not, the state goes back to what it was before the frame was entered. Then
    /// either the frame below goes on with the result, or, if the root frame returned, the
    /// stack hands back what the transaction gathered.
    pub fn on_return(self, result: Result<FinalizationResult, Error>, state: &mut State) -> (r: FrameStep)
        requires
            self@.frames.len() > 0,
            keeps_state(result) ==> Self::below_top(self@).sstore_clears_refund
                + self@.frames.last().substate.sstore_clears_refund <= u128::MAX,
        ensures
            keeps_state(result) ==> *final(state) == *old(state),
            !keeps_state(result) ==> final(state)@ == self@.frames.last().checkpoint && final(state).total_balance()
                == self@.frames.last().checkpoint_total_balance,
            self@.frames.len() == 1 ==> {
                &&& r matches FrameStep::Done(out)
                &&& out.substate@ == substate_after_return(self@.tx_substate, self@.frames.last(), result)
                &&& out.result == result
                &&& out.observer == self.spec_observer()
                &&& out.base_gas_required == self@.base_gas_required
            },
            self@.frames.len() > 1 ==> {
                &&& r matches FrameStep::Resume(stack, handed)
                &&& handed == result
                &&& stack.spec_observer() == self.spec_observer()
                &&& stack@ == (FrameStackModel {
                    frames: self@.frames.drop_last().drop_last().push(
                        FrameModel {
                            substate: substate_after_return(
                                self@.frames[self@.frames.len() - 2].substate,
                                self@.frames.last(),
                                result,
                            ),
                            ..self@.frames[self@.frames.len() - 2]
                        },
                    ),
                    static_flags: if self@.static_flags.len() > 0 {
                        self@.static_flags.drop_last()
                    } else {
                        self@.static_flags
                    },
                    ..self@
                })
            },
    {
        let mut stack = self;
        let keep = match &result {
            Ok(r) => r.apply_state,
            Err(_) => false,
        };
        let ghost n = stack.frames@.len() as int;
        assert(self@.frames[n - 1] == stack.frames@[n - 1].model());
        let top = stack.frames.pop().unwrap();
        stack.callstack.pop();
        let RunningFrame { frame, substate, checkpoint } = top;
        let created = if frame.is_create {
            Some(frame.params.address.with_space(frame.params.space))
        } else {
            None
        };
        if !keep {
            *state = checkpoint;
        }
        if stack.frames.len() == 0 {
            Self::settle(&mut stack.tx_substate, substate, created, keep);
            FrameStep::Done(
                FrameStackOutput {
                    substate: stack.tx_substate,
                    result,
                    observer: stack.observer,
                    base_gas_required: stack.base_gas_required,
                },
            )
        } else {
            assert(self@.frames[n - 2] == stack.frames@[n - 2].model());
            let mut parent = stack.frames.pop().unwrap();
            Self::settle(&mut parent.substate, substate, created, keep);
            stack.frames.push(parent);
            assert(stack@.frames =~= self@.frames.drop_last().drop_last().push(parent.model()));
            FrameStep::Resume(stack, result)
        }
    }

    /// Takes what the top frame has gathered out of the stack, and leaves nothing in its
    /// place. Whoever runs the frame adds to it and puts it back.
    pub fn take_top_substate(&mut self) -> (r: Substate)
        requires
            old(self)@.frames.len() > 0,
        ensures
            r@ == old(self)@.frames.last().substate,
            final(self).spec_observer() == old(self).spec_observer(),
            final(self)@ == (FrameStackModel {
                frames: old(self)@.frames.drop_last().push(
                    FrameModel { substate: SubstateModel::empty(), ..old(self)@.frames.last() },
                ),
                ..old(self)@
            }),
    {
        let ghost n = self.frames@.len() as int;
        assert(self@.frames[n - 1] == self.frames@[n - 1].model());
        let mut top = self.frames.pop().unwrap();
        let mut taken = Substate::new();
        std::mem::swap(&mut taken, &mut top.substate);
        self.frames.push(top);
        assert(self@.frames =~= old(self)@.frames.drop_last().push(top.model()));
        taken
    }

    /// Puts what the top frame has gathered in the place of what the stack holds for it.
    pub fn put_top_substate(&mut self, substate: Substate)
        requires
            old(self)@.frames.len() > 0,
        ensures
            final(self).spec_observer() == old(self).spec_observer(),
            final(self)@ == (FrameStackModel {
                frames: old(self)@.frames.drop_last().push(
                    FrameModel { substate: substate@, ..old(self)@.frames.last() },
                ),
                ..old(self)@
            }),
    {
        let ghost n = self.frames@.len() as int;
        assert(self@.frames[n - 1] == self.frames@[n - 1].model());
        let mut top = self.frames.pop().unwrap();
        top.substate = substate;
        self.frames.push(top);
        assert(self@.frames =~= old(self)@.frames.drop_last().push(top.model()));
    }

    /// Records a movement of value with the state tracer, where there is one.
    pub fn trace_internal_transfer(
        &mut self,
        from: AddressPocket,
        to: AddressPocket,
        value: U256,
    )
        ensures
            final(self)@ == old(self)@,
            old(self).spec_observer().traced(&final(self).spec_observer(), from, to, value),
    {
        self.observer.trace_internal_transfer(from, to, value);
    }

    /// Whether the top frame is static, and so may change no state.
    pub fn in_static_context(&self) -> (r: bool)
        ensures
            r == (self@.static_flags.len() > 0 && self@.static_flags.last()),
    {
        self.callstack.in_static_context()
    }

    /// Whether the top frame can return with `result`: where its effects are kept, the
    /// refund counters of the frame and of what lies below it can be added.
    pub fn can_return(&self, result: &Result<FinalizationResult, Error>) -> (r: bool)
        requires
            self@.frames.len() > 0,
        ensures
            r == (keeps_state(*result) ==> Self::below_top(self@).sstore_clears_refund
                + self@.frames.last().substate.sstore_clears_refund <= u128::MAX),
    {
        let keep = match result {
            Ok(r) => r.apply_state,
            Err(_) => false,
        };
        if !keep {
            return true;
        }
        let n = self.frames.len();
        assert(self@.frames[n - 1] == self.frames@[n - 1].model());
        let top = self.frames[n - 1].substate.sstore_clears_refund;
        let below = if n >= 2 {
            assert(self@.frames[n - 2] == self.frames@[n - 2].model());
            self.frames[n - 2].substate.sstore_clears_refund
        } else {
            self.tx_substate.sstore_clears_refund
        };
        below <= u128::MAX - top
    }
}

} // verus!
