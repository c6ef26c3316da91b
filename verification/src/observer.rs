//! Observers: optional recorders that ride along with an execution.

use crate::address::AddressWithSpace;
use crate::uint::U256;
use vstd::prelude::*;

verus! {

/// A place that value can move from or to.
#[derive(Clone, Copy, Debug, PartialEq, Eq, Structural)]
pub enum AddressPocket {
    /// The balance of an account.
    Balance(AddressWithSpace),
    /// The storage collateral of an account.
    StorageCollateral(AddressWithSpace),
    /// Gas that was paid for.
    GasPayment,
    /// Value that is created or destroyed.
    MintBurn,
}

/// One entry of an execution trace.
#[derive(Clone, Copy, Debug, PartialEq, Eq, Structural)]
pub enum ExecTrace {
    /// Value moved between two pockets.
    InternalTransfer { from: AddressPocket, to: AddressPocket, value: U256 },
}

/// Records the movements of value, in the order in which they happen.
#[derive(Debug)]
pub struct StateTracer {
    pub traces: Vec<ExecTrace>,
}

impl StateTracer {
    /// A tracer that has recorded nothing.
    pub fn new() -> (r: StateTracer)
        ensures
            r.traces@ == Seq::<ExecTrace>::empty(),
    {
        StateTracer { traces: Vec::new() }
    }

    /// Records one movement of value.
    pub fn trace_internal_transfer(&mut self, from: AddressPocket, to: AddressPocket, value: U256)
        ensures
            final(self).traces@ == old(self).traces@.push(ExecTrace::InternalTransfer { from, to, value }),
    {
        self.traces.push(ExecTrace::InternalTransfer { from, to, value });
    }

    /// Hands out what was recorded, in order.
    pub fn drain(self) -> (r: Vec<ExecTrace>)
        ensures
            r@ == self.traces@,
    {
        self.traces
    }
}

/// One step of the virtual machine.
#[derive(Clone, Copy, Debug, PartialEq, Eq, Structural)]
pub struct VmStep {
    pub pc: u64,
    pub instruction: u8,
    pub gas_left: U256,
}

/// Records the steps of the virtual machine.
#[derive(Debug)]
pub struct VmTracer {
    pub steps: Vec<VmStep>,
}

impl VmTracer {
    pub fn new() -> (r: VmTracer)
        ensures
            r.steps@ == Seq::<VmStep>::empty(),
    {
        VmTracer { steps: Vec::new() }
    }

    /// Records one step.
    pub fn trace_step(&mut self, step: VmStep)
        ensures
            final(self).steps@ == old(self).steps@.push(step),
    {
        self.steps.push(step);
    }
}

/// Holds the estimate of the least gas with which the execution would succeed.
#[derive(Clone, Copy, Debug, PartialEq, Eq, Structural)]
pub struct GasMan {
    pub required: U256,
}

impl GasMan {
    pub fn new() -> (r: GasMan)
        ensures
            r.required@ == 0,
    {
        GasMan { required: U256::zero() }
    }

    /// Raises the estimate to `gas` where it was lower.
    pub fn record(&mut self, gas: U256)
        ensures
            final(self).required@ == if old(self).required@ >= gas@ {
                old(self).required@
            } else {
                gas@
            },
    {
        if self.required.lt(&gas) {
            self.required = gas;
        }
    }

    /// The estimate.
    pub fn gas_required(&self) -> (r: U256)
        ensures
            r == self.required,
    {
        self.required
    }
}

/// The three observers, each of which may be absent.
#[derive(Debug)]
pub struct MultiObservers {
    pub tracer: Option<StateTracer>,
    pub vm_tracer: Option<VmTracer>,
    pub gas_man: Option<GasMan>,
}

impl MultiObservers {
    /// No observer at all.
    pub fn with_no_tracing() -> (r: MultiObservers)
        ensures
            r.tracer is None,
            r.vm_tracer is None,
            r.gas_man is None,
    {
        MultiObservers { tracer: None, vm_tracer: None, gas_man: None }
    }

    /// What the state tracer has recorded; nothing where there is none.
    pub open spec fn trace(&self) -> Seq<ExecTrace> {
        match self.tracer {
            Some(t) => t.traces@,
            None => Seq::empty(),
        }
    }

    /// The observers after one movement of value: the state tracer, where there is one,
    /// has it as its last record.
    pub open spec fn traced(&self, after: &MultiObservers, from: AddressPocket, to: AddressPocket, value: U256) -> bool {
        &&& after.gas_man == self.gas_man
        &&& after.vm_tracer == self.vm_tracer
        &&& after.tracer is Some == self.tracer is Some
        &&& self.tracer is Some ==> after.trace() == self.trace().push(
            ExecTrace::InternalTransfer { from, to, value },
        )
        &&& self.tracer is None ==> after.trace() == self.trace()
    }

    /// The observers after some movements of value: the state tracer, where there is
    /// one, has them as its last records, in order.
    pub open spec fn traced_all(&self, after: &MultiObservers, records: Seq<ExecTrace>) -> bool {
        &&& after.gas_man == self.gas_man
        &&& after.vm_tracer == self.vm_tracer
        &&& after.tracer is Some == self.tracer is Some
        &&& self.tracer is Some ==> after.trace() == self.trace() + records
        &&& self.tracer is None ==> after.trace() == self.trace()
    }

    /// Records one movement of value with the state tracer, where there is one.
    pub fn trace_internal_transfer(&mut self, from: AddressPocket, to: AddressPocket, value: U256)
        ensures
            old(self).traced(final(self), from, to, value),
            old(self).traced_all(final(self), seq![ExecTrace::InternalTransfer { from, to, value }]),
    {
        let tracer = self.tracer.take();
        match tracer {
            Some(mut t) => {
                t.trace_internal_transfer(from, to, value);
                assert(t.traces@ =~= old(self).trace() + seq![ExecTrace::InternalTransfer { from, to, value }]);
                self.tracer = Some(t);
            },
            None => {},
        }
    }

    /// Hands out what the state tracer recorded; nothing where there is none.
    pub fn drain_trace(self) -> (r: Vec<ExecTrace>)
        ensures
            r@ == self.trace(),
    {
        match self.tracer {
            Some(t) => t.drain(),
            None => Vec::new(),
        }
    }
}

} // verus!
