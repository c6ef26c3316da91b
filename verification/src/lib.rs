//! A deterministic transaction executor for an account-based world state.
//!
//! Given a transaction and a world state, the executor checks the transaction, charges
//! its gas in advance, hands the root frame to a stack of frames that a virtual machine
//! runs, and settles refund and self-destruction when the root frame has returned. Every
//! function states what it does over mathematical models: numbers, sequences, sets and
//! maps.
//!
//! The virtual machine is not part of the library. The frame stack is a state machine
//! that is told what the machine did and answers what happens next.

pub mod abi;
pub mod address;
pub mod address_set;
pub mod bytes;
pub mod context;
pub mod contracts;
pub mod executed;
pub mod executor;
pub mod frame;
pub mod hash;
pub mod observer;
pub mod rlp;
pub mod schema;
pub mod state;
pub mod statedb;
pub mod substate;
pub mod text;
pub mod transaction;
pub mod uint;
pub mod vm;
