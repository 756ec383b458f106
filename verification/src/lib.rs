//! A privileged native-asset mint/burn operation for an EVM chain, together
//! with the factory that installs it into an execution context.
//!
//! The heart of the crate is [`NativeMinterPrecompile`]: a stateless decision
//! procedure that, for one low-level call (caller, call kind, gas, raw
//! payload), either rejects the call with a typed reason or performs exactly
//! one balance mutation on a ledger. Its whole behaviour is pinned down by
//! the specification function [`native_minter::decide`] and proved.
//!
//! [`RkbEvmFactory`] and [`RkbExecutorBuilder`] carry the one piece of
//! configuration — the authorized bridge address — and build the extended
//! operation set; the surrounding node process wires them into a real EVM.

mod address;
mod bytes;
mod evm;
mod executor;
mod ledger;
pub mod native_minter;
mod u256;

pub use address::Address;
pub use bytes::be_word;
pub use evm::{PrecompileSet, RkbEvmFactory};
pub use executor::RkbExecutorBuilder;
pub use ledger::Ledger;
pub use native_minter::{
    burn_selector_bytes, mint_selector_bytes, native_minter_address, CallContext,
    NativeMinterPrecompile, PrecompileOutput, Rejection, NATIVE_MINTER_GAS_COST,
};
pub use u256::U256;
