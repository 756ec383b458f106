//! The executor builder: the node-assembly entry point that carries the
//! authorized bridge address from configuration down to the EVM factory.
//!
//! The hosting node hands this builder to its component-assembly layer; the
//! builder's one decision is which factory the execution stage runs with,
//! and `evm_factory` is that decision. The async plumbing around it — chain
//! spec lookup, config wrapping — lives with the node process.

use crate::address::{spec_addr_zero, Address};
use crate::evm::RkbEvmFactory;
use vstd::prelude::*;

verus! {

/// Builds the EVM configuration for a node, with the native minter wired in.
#[derive(Clone, Debug)]
pub struct RkbExecutorBuilder {
    /// The only address allowed to call the native minter.
    pub authorized_bridge: Address,
}

impl RkbExecutorBuilder {
    /// Creates a builder whose EVMs accept minter calls only from
    /// `authorized_bridge`.
    pub fn new(authorized_bridge: Address) -> (r: Self)
        ensures
            r.authorized_bridge == authorized_bridge,
    {
        RkbExecutorBuilder { authorized_bridge }
    }

    /// A builder on the zero address, for testing only: the zero address is
    /// the documented insecure default and must not reach production.
    pub fn testing() -> (r: Self)
        ensures
            r.authorized_bridge == spec_addr_zero(),
    {
        RkbExecutorBuilder { authorized_bridge: Address::zero() }
    }

    /// The authorized bridge address.
    pub fn authorized_bridge(&self) -> (r: Address)
        ensures
            r == self.authorized_bridge,
    {
        self.authorized_bridge
    }

    /// The factory the built EVM configuration runs with: it carries this
    /// builder's authorized bridge into every execution context it creates.
    pub fn evm_factory(&self) -> (r: RkbEvmFactory)
        ensures
            r.authorized_bridge == self.authorized_bridge,
    {
        RkbEvmFactory::new(self.authorized_bridge)
    }
}

impl Default for RkbExecutorBuilder {
    /// The testing builder: zero address, insecure, never for production.
    fn default() -> (r: Self)
        ensures
            r.authorized_bridge == spec_addr_zero(),
    {
        RkbExecutorBuilder::testing()
    }
}

} // verus!
