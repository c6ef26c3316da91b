//! The built-in contracts.

use vstd::prelude::*;

verus! {

/// A built-in contract.
#[derive(Clone, Copy, Debug, PartialEq, Eq, Structural)]
pub enum InternalContract {
    Context,
    CrossSpaceCall,
    SystemStorage,
    Reserved3,
    Reserved8,
    Reserved9,
    Reserved11,
}

/// The built-in contracts in their fixed order.
pub open spec fn spec_all_internal_contracts() -> Seq<InternalContract> {
    seq![
        InternalContract::Context,
        InternalContract::CrossSpaceCall,
        InternalContract::SystemStorage,
        InternalContract::Reserved3,
        InternalContract::Reserved8,
        InternalContract::Reserved9,
        InternalContract::Reserved11,
    ]
}

/// All built-in contracts. In test mode each of them is set up as a contract in the
/// genesis block.
pub fn all_internal_contracts() -> (r: Vec<InternalContract>)
    ensures
        r@ == spec_all_internal_contracts(),
{
    let mut out: Vec<InternalContract> = Vec::new();
    out.push(InternalContract::Context);
    out.push(InternalContract::CrossSpaceCall);
    out.push(InternalContract::SystemStorage);
    out.push(InternalContract::Reserved3);
    out.push(InternalContract::Reserved8);
    out.push(InternalContract::Reserved9);
    out.push(InternalContract::Reserved11);
    assert(out@ =~= spec_all_internal_contracts());
    out
}

} // verus!
