//! The side effects that a transaction gathers while it runs, and the shape of the frame
//! stack.

use crate::address::{Address, AddressWithSpace, Space, H256};
use crate::address_set::AddressSet;
use vstd::prelude::*;

verus! {

/// A log record that a contract wrote.
#[derive(Clone, Debug, PartialEq, Eq)]
pub struct LogEntry {
    pub address: Address,
    pub topics: Vec<H256>,
    pub data: Vec<u8>,
    pub space: Space,
}

/// What a frame, or a whole transaction, has gathered.
#[derive(Debug)]
pub struct Substate {
    /// The accounts that destroyed themselves.
    pub suicides: AddressSet,
    /// The accounts whose balance was touched.
    pub touched: AddressSet,
    /// The logs, in the order in which they were written.
    pub logs: Vec<LogEntry>,
    /// The contracts that were created, in the order in which their creation ended.
    pub contracts_created: Vec<AddressWithSpace>,
    /// The refund counter for cleared storage.
    pub sstore_clears_refund: u128,
}

/// [`Substate`] as mathematics.
pub struct SubstateModel {
    pub suicides: Set<AddressWithSpace>,
    pub touched: Set<AddressWithSpace>,
    pub logs: Seq<LogEntry>,
    pub contracts_created: Seq<AddressWithSpace>,
    pub sstore_clears_refund: nat,
}

impl SubstateModel {
    /// The substate that holds nothing.
    pub open spec fn empty() -> SubstateModel {
        SubstateModel {
            suicides: Set::empty(),
            touched: Set::empty(),
            logs: Seq::empty(),
            contracts_created: Seq::empty(),
            sstore_clears_refund: 0,
        }
    }

    /// A parent's substate after a child's was folded into it: the sets are united, the
    /// child's logs and created contracts follow the parent's, the refunds are added.
    pub open spec fn accrue(self, child: SubstateModel) -> SubstateModel {
        SubstateModel {
            suicides: self.suicides.union(child.suicides),
            touched: self.touched.union(child.touched),
            logs: self.logs + child.logs,
            contracts_created: self.contracts_created + child.contracts_created,
            sstore_clears_refund: self.sstore_clears_refund + child.sstore_clears_refund,
        }
    }
}

impl View for Substate {
    type V = SubstateModel;

    open spec fn view(&self) -> SubstateModel {
        SubstateModel {
            suicides: self.suicides@,
            touched: self.touched@,
            logs: self.logs@,
            contracts_created: self.contracts_created@,
            sstore_clears_refund: self.sstore_clears_refund as nat,
        }
    }
}

impl Substate {
    /// A substate that holds nothing.
    pub fn new() -> (r: Substate)
        ensures
            r@ == SubstateModel::empty(),
    {
        Substate {
            suicides: AddressSet::new(),
            touched: AddressSet::new(),
            logs: Vec::new(),
            contracts_created: Vec::new(),
            sstore_clears_refund: 0,
        }
    }

    /// Folds a child's substate into this one.
    pub fn accrue(&mut self, child: Substate)
        requires
            old(self).sstore_clears_refund + child.sstore_clears_refund <= u128::MAX,
        ensures
            final(self)@ == old(self)@.accrue(child@),
    {
        let mut child = child;
        self.suicides.extend(&child.suicides);
        self.touched.extend(&child.touched);
        self.logs.append(&mut child.logs);
        self.contracts_created.append(&mut child.contracts_created);
        self.sstore_clears_refund = self.sstore_clears_refund + child.sstore_clears_refund;
    }
}

/// Folding substates is associative: how three are grouped does not matter.
pub proof fn lemma_accrue_associative(a: SubstateModel, b: SubstateModel, c: SubstateModel)
    ensures
        a.accrue(b).accrue(c) == a.accrue(b.accrue(c)),
{
    assert(a.accrue(b).accrue(c).suicides =~= a.accrue(b.accrue(c)).suicides);
    assert(a.accrue(b).accrue(c).touched =~= a.accrue(b.accrue(c)).touched);
    assert(a.accrue(b).accrue(c).logs =~= a.accrue(b.accrue(c)).logs);
    assert(a.accrue(b).accrue(c).contracts_created =~= a.accrue(b.accrue(c)).contracts_created);
}

/// On the two sets and on the refund, folding is commutative: which of two substates is
/// folded into which does not matter.
pub proof fn lemma_accrue_commutative_on_sets(a: SubstateModel, b: SubstateModel)
    ensures
        a.accrue(b).suicides == b.accrue(a).suicides,
        a.accrue(b).touched == b.accrue(a).touched,
        a.accrue(b).sstore_clears_refund == b.accrue(a).sstore_clears_refund,
{
    assert(a.accrue(b).suicides =~= b.accrue(a).suicides);
    assert(a.accrue(b).touched =~= b.accrue(a).touched);
}

/// On the two sequences, folding keeps order: the parent's entries stay where they were,
/// and the child's follow them in the child's own order.
pub proof fn lemma_accrue_preserves_order(a: SubstateModel, b: SubstateModel)
    ensures
        a.accrue(b).logs.len() == a.logs.len() + b.logs.len(),
        forall|i: int| 0 <= i < a.logs.len() ==> a.accrue(b).logs[i] == a.logs[i],
        forall|i: int| 0 <= i < b.logs.len() ==> a.accrue(b).logs[a.logs.len() + i] == b.logs[i],
        a.accrue(b).contracts_created.len() == a.contracts_created.len() + b.contracts_created.len(),
        forall|i: int|
            0 <= i < a.contracts_created.len() ==> a.accrue(b).contracts_created[i]
                == a.contracts_created[i],
        forall|i: int|
            0 <= i < b.contracts_created.len() ==> a.accrue(b).contracts_created[a.contracts_created.len()
                + i] == b.contracts_created[i],
{
}

/// The depth and the static flag of every frame on the stack, the root frame first.
#[derive(Debug)]
pub struct FrameStackInfo {
    static_flags: Vec<bool>,
}

impl View for FrameStackInfo {
    type V = Seq<bool>;

    closed spec fn view(&self) -> Seq<bool> {
        self.static_flags@
    }
}

/// Once a frame is static, every frame above it is static too.
pub open spec fn static_is_inherited(flags: Seq<bool>) -> bool {
    forall|i: int, j: int| 0 <= i <= j < flags.len() && flags[i] ==> flags[j]
}

impl FrameStackInfo {
    #[verifier::type_invariant]
    spec fn inv(self) -> bool {
        static_is_inherited(self.static_flags@)
    }

    /// The info of an empty stack.
    pub fn new() -> (r: FrameStackInfo)
        ensures
            r@ == Seq::<bool>::empty(),
    {
        FrameStackInfo { static_flags: Vec::new() }
    }

    /// The number of frames on the stack.
    pub fn depth(&self) -> (r: usize)
        ensures
            r == self@.len(),
            static_is_inherited(self@),
    {
        proof {
            use_type_invariant(self);
        }
        self.static_flags.len()
    }

    /// Whether the top frame is static, and so may change no state. An empty stack is
    /// not.
    pub fn in_static_context(&self) -> (r: bool)
        ensures
            r == (self@.len() > 0 && self@.last()),
    {
        let n = self.static_flags.len();
        n > 0 && self.static_flags[n - 1]
    }

    /// Enters a frame. It is static where it asks to be or where the frame below it is.
    pub fn push(&mut self, static_flag: bool)
        ensures
            final(self)@ == old(self)@.push(static_flag || (old(self)@.len() > 0 && old(self)@.last())),
    {
        proof {
            use_type_invariant(&*self);
        }
        let flag = static_flag || self.in_static_context();
        let mut flags = Vec::new();
        std::mem::swap(&mut flags, &mut self.static_flags);
        flags.push(flag);
        self.static_flags = flags;
    }

    /// Leaves the top frame, where there is one.
    pub fn pop(&mut self)
        ensures
            final(self)@ == if old(self)@.len() > 0 {
                old(self)@.drop_last()
            } else {
                old(self)@
            },
    {
        proof {
            use_type_invariant(&*self);
        }
        let mut flags = Vec::new();
        std::mem::swap(&mut flags, &mut self.static_flags);
        flags.pop();
        self.static_flags = flags;
    }
}

} // verus!
