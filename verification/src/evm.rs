//! The EVM factory: builds the operation set an execution context runs with.
//!
//! A context's operation set is the standard one plus the native minter at
//! its fixed address. The factory copies the base set rather than mutating
//! it, so contexts built from one shared base never leak entries into each
//! other, and binds the minter entry to the factory's authorized bridge —
//! the operation itself enforces authorization, not some contract around it.

use crate::address::{spec_addr_zero, Address};
use crate::native_minter::{spec_native_minter_address, native_minter_address,
    NativeMinterPrecompile};
use vstd::prelude::*;

verus! {

/// An operation set: which addresses have a registered operation, and the
/// native-minter entry with its configuration, when registered.
pub struct PrecompileSet {
    addresses: Vec<Address>,
    minter: Option<NativeMinterPrecompile>,
}

impl PrecompileSet {
    /// Whether an operation is registered at `a`.
    pub closed spec fn is_registered(self, a: Address) -> bool {
        self.addresses@.contains(a)
    }

    /// The authorized bridge of the registered native-minter entry, if any.
    pub closed spec fn minter_config(self) -> Option<Address> {
        match self.minter {
            Some(m) => Some(m.authorized_bridge),
            None => None,
        }
    }

    /// An empty operation set.
    pub fn new() -> (r: PrecompileSet)
        ensures
            forall|a: Address| !r.is_registered(a),
            r.minter_config() == None::<Address>,
    {
        PrecompileSet { addresses: Vec::new(), minter: None }
    }

    /// Registers a plain entry at `a`; nothing else changes.
    pub fn register(&mut self, a: &Address)
        ensures
            forall|b: Address|
                final(self).is_registered(b) == (old(self).is_registered(b) || b == *a),
            final(self).minter_config() == old(self).minter_config(),
    {
        let ghost s_before = self.addresses@;
        self.addresses.push(*a);
        proof {
            assert forall|b: Address|
                self.addresses@.contains(b) == (s_before.contains(b) || b == *a) by {
                if s_before.contains(b) {
                    let k = choose|k: int| 0 <= k < s_before.len() && s_before[k] == b;
                    assert(self.addresses@[k] == b);
                }
                if b == *a {
                    assert(self.addresses@[s_before.len() as int] == b);
                }
                if self.addresses@.contains(b) {
                    let k = choose|k: int|
                        0 <= k < self.addresses@.len() && self.addresses@[k] == b;
                    if k < s_before.len() {
                        assert(s_before[k] == b);
                    }
                }
            }
        }
    }

    /// Whether an operation is registered at `a`, executably.
    pub fn contains(&self, a: &Address) -> (r: bool)
        ensures
            r == self.is_registered(*a),
    {
        let n = self.addresses.len();
        let mut i: usize = 0;
        while i < n
            invariant
                i <= n,
                n == self.addresses@.len(),
                forall|k: int| 0 <= k < i ==> self.addresses@[k] != *a,
            decreases n - i,
        {
            if self.addresses[i] == *a {
                return true;
            }
            i = i + 1;
        }
        false
    }

    /// The native-minter entry, if one is registered.
    pub fn minter(&self) -> (r: &Option<NativeMinterPrecompile>)
        ensures
            match r {
                Some(m) => self.minter_config() == Some(m.authorized_bridge),
                None => self.minter_config() == None::<Address>,
            },
    {
        &self.minter
    }
}

/// Builds EVM execution contexts whose operation set carries the native
/// minter. The one configured value is the authorized bridge address the
/// minter entry is bound to.
#[derive(Clone, Debug)]
pub struct RkbEvmFactory {
    /// The only address allowed to call the native minter.
    pub authorized_bridge: Address,
}

impl RkbEvmFactory {
    /// Creates a factory whose native-minter entry accepts calls only from
    /// `authorized_bridge`.
    pub fn new(authorized_bridge: Address) -> (r: Self)
        ensures
            r.authorized_bridge == authorized_bridge,
    {
        RkbEvmFactory { authorized_bridge }
    }

    /// The authorized bridge address.
    pub fn authorized_bridge(&self) -> (r: Address)
        ensures
            r == self.authorized_bridge,
    {
        self.authorized_bridge
    }

    /// The operation set of a new execution context: everything the base set
    /// registers, plus the native minter at its fixed address, bound to this
    /// factory's authorized bridge. The base set is copied, never mutated.
    pub fn create_precompiles(&self, base: &PrecompileSet) -> (r: PrecompileSet)
        ensures
            forall|a: Address|
                r.is_registered(a) == (base.is_registered(a) || a
                    == spec_native_minter_address()),
            r.minter_config() == Some(self.authorized_bridge),
    {
        let mut extended = PrecompileSet {
            addresses: clone_addresses(&base.addresses),
            minter: Some(NativeMinterPrecompile::new(self.authorized_bridge)),
        };
        proof {
            assert(extended.addresses@ =~= base.addresses@);
        }
        let fixed = native_minter_address();
        extended.register(&fixed);
        extended
    }
}

impl Default for RkbEvmFactory {
    /// The zero-address default: valid for testing, insecure for production,
    /// to be overridden by explicit configuration.
    fn default() -> (r: Self)
        ensures
            r.authorized_bridge == spec_addr_zero(),
    {
        RkbEvmFactory::new(Address::zero())
    }
}

/// A plain element-wise copy of an address list.
fn clone_addresses(v: &Vec<Address>) -> (r: Vec<Address>)
    ensures
        r@ == v@,
{
    let n = v.len();
    let mut r: Vec<Address> = Vec::new();
    let mut i: usize = 0;
    while i < n
        invariant
            i <= n,
            n == v@.len(),
            r@ == v@.subrange(0, i as int),
        decreases n - i,
    {
        r.push(v[i]);
        proof {
            assert(r@ =~= v@.subrange(0, i as int + 1));
        }
        i = i + 1;
    }
    proof {
        assert(v@.subrange(0, n as int) =~= v@);
    }
    r
}

} // verus!
