//! The native-minter precompile: a privileged mint/burn operation for the
//! chain's native asset.
//!
//! A single configured bridge address may credit ("mint") or debit ("burn")
//! any account's native balance by calling the operation at its fixed
//! address. One invocation either performs exactly one balance mutation and
//! succeeds with empty output, or rejects with a typed reason and leaves the
//! ledger untouched. The whole decision tree — gas floor, call-kind gate,
//! read-only gate, authorization, selector dispatch, argument decoding — is
//! captured by the specification function [`decide`], and `call` is proved
//! to follow it.

use crate::address::{addr_from_bytes, Address};
use crate::bytes::{be_val, pow256};
use crate::ledger::Ledger;
use crate::u256::{u256_val, U256};
use vstd::prelude::*;

verus! {

/// Gas charged by the operation: one warm balance read plus one write.
pub const NATIVE_MINTER_GAS_COST: u64 = 6000;

/// The fixed address the operation is registered at.
pub open spec fn spec_native_minter_address() -> Address {
    Address { hi: 0, mid: 0, lo: 0x420 }
}

/// The fixed address the operation is registered at
/// (`0x0000000000000000000000000000000000000420`).
pub fn native_minter_address() -> (r: Address)
    ensures
        r == spec_native_minter_address(),
{
    Address { hi: 0, mid: 0, lo: 0x420 }
}

/// Why a call was rejected. Every rejection leaves the ledger untouched.
#[derive(Clone, Copy, PartialEq, Eq, Structural, Debug)]
pub enum Rejection {
    /// The supplied gas is below the fixed cost.
    OutOfGas,
    /// The call arrived through a delegated convention, which would run this
    /// logic under the caller's identity and break the authorization below.
    DelegationNotPermitted,
    /// The call was made in a read-only context; this operation mutates state.
    MutationInReadOnlyContext,
    /// The caller is not the configured bridge address.
    Unauthorized,
    /// The payload is shorter than a selector, or its arguments do not fill
    /// exactly one address slot and one amount slot.
    MalformedCall,
    /// The selector names neither `mint` nor `burn`.
    UnknownOperation,
    /// A burn asked for more than the account holds.
    InsufficientBalance,
    /// The ledger could not apply the mutation (a credit overflowed).
    LedgerError,
}

/// One low-level call, as the hosting EVM presents it: read-only and supplied
/// for the duration of a single invocation.
pub struct CallContext {
    /// The address that made the call.
    pub caller: Address,
    /// Whether the call arrived through a delegated/forwarded convention.
    pub delegated: bool,
    /// Whether the call was made in a read-only (static) context.
    pub read_only: bool,
    /// Gas remaining for this call.
    pub gas: u64,
    /// The raw payload: selector plus ABI-encoded arguments.
    pub payload: Vec<u8>,
}

/// A successful result: the gas consumed and the (always empty) output.
#[derive(Clone, Debug, PartialEq, Eq)]
pub struct PrecompileOutput {
    pub gas_used: u64,
    pub output: Vec<u8>,
}

/// The operation a well-formed payload asks for, at the specification level.
pub enum SpecOp {
    Mint { to: Address, amount: nat },
    Burn { from: Address, amount: nat },
}

/// The four-byte identifier of `mint(address,uint256)` under the external
/// ABI convention.
pub open spec fn mint_selector() -> Seq<u8> {
    seq![0x40u8, 0xc1u8, 0x0fu8, 0x19u8]
}

/// The four-byte identifier of `burn(address,uint256)` under the external
/// ABI convention.
pub open spec fn burn_selector() -> Seq<u8> {
    seq![0x9du8, 0xc2u8, 0x9fu8, 0xacu8]
}

/// Whether the payload opens with the mint selector.
pub open spec fn is_mint_selector(p: Seq<u8>) -> bool {
    p.len() >= 4 && p[0] == 0x40u8 && p[1] == 0xc1u8 && p[2] == 0x0fu8 && p[3] == 0x19u8
}

/// Whether the payload opens with the burn selector.
pub open spec fn is_burn_selector(p: Seq<u8>) -> bool {
    p.len() >= 4 && p[0] == 0x9du8 && p[1] == 0xc2u8 && p[2] == 0x9fu8 && p[3] == 0xacu8
}

/// The full decision tree of one invocation, before the ledger is consulted:
/// the checks run in this fixed order and the first failing one names the
/// rejection; a call that passes them all decodes into the one operation its
/// payload asks for. The argument layout is fixed: a 20-byte address
/// left-padded to a 32-byte slot, then a 32-byte big-endian amount, so a
/// well-formed payload is exactly 68 bytes.
pub open spec fn decide(authorized: Address, ctx: CallContext) -> Result<SpecOp, Rejection> {
    if ctx.gas < NATIVE_MINTER_GAS_COST {
        Err(Rejection::OutOfGas)
    } else if ctx.delegated {
        Err(Rejection::DelegationNotPermitted)
    } else if ctx.read_only {
        Err(Rejection::MutationInReadOnlyContext)
    } else if ctx.caller != authorized {
        Err(Rejection::Unauthorized)
    } else if ctx.payload@.len() < 4 {
        Err(Rejection::MalformedCall)
    } else if is_mint_selector(ctx.payload@) {
        if ctx.payload@.len() == 68 {
            Ok(
                SpecOp::Mint {
                    to: addr_from_bytes(ctx.payload@.subrange(16, 36)),
                    amount: be_val(ctx.payload@.subrange(36, 68)),
                },
            )
        } else {
            Err(Rejection::MalformedCall)
        }
    } else if is_burn_selector(ctx.payload@) {
        if ctx.payload@.len() == 68 {
            Ok(
                SpecOp::Burn {
                    from: addr_from_bytes(ctx.payload@.subrange(16, 36)),
                    amount: be_val(ctx.payload@.subrange(36, 68)),
                },
            )
        } else {
            Err(Rejection::MalformedCall)
        }
    } else {
        Err(Rejection::UnknownOperation)
    }
}

/// A successful result: the fixed cost was charged and the output is empty.
pub open spec fn is_success(r: Result<PrecompileOutput, Rejection>) -> bool {
    r matches Ok(out) && out.gas_used == NATIVE_MINTER_GAS_COST && out.output@ == Seq::<
        u8,
    >::empty()
}

/// The ledger after a mint: `a` holds `amount` more, everyone else as before.
pub open spec fn mints_to(before: Ledger, after: Ledger, a: Address, amount: nat) -> bool {
    &&& after.bal(a) == before.bal(a) + amount
    &&& forall|b: Address| b != a ==> after.bal(b) == before.bal(b)
}

/// The ledger after a burn: `a` held at least `amount` and holds exactly
/// `amount` less, everyone else as before.
pub open spec fn burns_from(before: Ledger, after: Ledger, a: Address, amount: nat) -> bool {
    &&& amount <= before.bal(a)
    &&& after.bal(a) == before.bal(a) - amount
    &&& forall|b: Address| b != a ==> after.bal(b) == before.bal(b)
}

/// The privileged mint/burn operation. It is stateless across invocations:
/// the one configured value is the single address allowed to call it.
#[derive(Clone, Debug)]
pub struct NativeMinterPrecompile {
    /// The only caller the operation accepts. The all-zero address is a
    /// valid but insecure default meant for testing, never for production.
    pub authorized_bridge: Address,
}

impl NativeMinterPrecompile {
    /// Creates the operation with the given authorized bridge address.
    pub fn new(authorized_bridge: Address) -> (r: Self)
        ensures
            r.authorized_bridge == authorized_bridge,
    {
        NativeMinterPrecompile { authorized_bridge }
    }

    /// The authorized bridge address.
    pub fn authorized_bridge(&self) -> (r: Address)
        ensures
            r == self.authorized_bridge,
    {
        self.authorized_bridge
    }

    /// Executes one call: authorizes, decodes and applies exactly the
    /// operation [`decide`] names, or rejects with its reason and leaves the
    /// ledger untouched.
    pub fn call(&self, ctx: &CallContext, ledger: &mut Ledger) -> (r: Result<
        PrecompileOutput,
        Rejection,
    >)
        requires
            old(ledger).wf(),
        ensures
            final(ledger).wf(),
            decide(self.authorized_bridge, *ctx) matches Err(rej) ==> (r == Err::<
                PrecompileOutput,
                Rejection,
            >(rej) && *final(ledger) == *old(ledger)),
            decide(self.authorized_bridge, *ctx) matches Ok(SpecOp::Mint { to, amount }) ==> ((
            old(ledger).bal(to) + amount < pow256(32) ==> (is_success(r) && mints_to(
                *old(ledger),
                *final(ledger),
                to,
                amount,
            ))) && (old(ledger).bal(to) + amount >= pow256(32) ==> (r == Err::<
                PrecompileOutput,
                Rejection,
            >(Rejection::LedgerError) && *final(ledger) == *old(ledger)))),
            decide(self.authorized_bridge, *ctx) matches Ok(SpecOp::Burn { from, amount }) ==> ((
            amount <= old(ledger).bal(from) ==> (is_success(r) && burns_from(
                *old(ledger),
                *final(ledger),
                from,
                amount,
            ))) && (amount > old(ledger).bal(from) ==> (r == Err::<
                PrecompileOutput,
                Rejection,
            >(Rejection::InsufficientBalance) && *final(ledger) == *old(ledger)))),
    {
        if ctx.gas < NATIVE_MINTER_GAS_COST {
            return Err(Rejection::OutOfGas);
        }
        if ctx.delegated {
            return Err(Rejection::DelegationNotPermitted);
        }
        if ctx.read_only {
            return Err(Rejection::MutationInReadOnlyContext);
        }
        if ctx.caller != self.authorized_bridge {
            return Err(Rejection::Unauthorized);
        }
        if ctx.payload.len() < 4 {
            return Err(Rejection::MalformedCall);
        }
        let p0 = ctx.payload[0];
        let p1 = ctx.payload[1];
        let p2 = ctx.payload[2];
        let p3 = ctx.payload[3];
        let is_mint = p0 == 0x40 && p1 == 0xc1 && p2 == 0x0f && p3 == 0x19;
        let is_burn = p0 == 0x9d && p1 == 0xc2 && p2 == 0x9f && p3 == 0xac;
        if is_mint {
            if ctx.payload.len() != 68 {
                return Err(Rejection::MalformedCall);
            }
            let recipient = Address::from_be_bytes(&ctx.payload, 16);
            let amount = U256::from_be_bytes(&ctx.payload, 36);
            self.execute_mint(ledger, &recipient, &amount)
        } else if is_burn {
            if ctx.payload.len() != 68 {
                return Err(Rejection::MalformedCall);
            }
            let from = Address::from_be_bytes(&ctx.payload, 16);
            let amount = U256::from_be_bytes(&ctx.payload, 36);
            self.execute_burn(ledger, &from, &amount)
        } else {
            Err(Rejection::UnknownOperation)
        }
    }

    /// Credits `amount` to `recipient`: the one ledger mutation of a mint.
    /// The only failure is the ledger's own — a balance that would no longer
    /// fit in 256 bits — and it is surfaced, never swallowed.
    pub fn execute_mint(&self, ledger: &mut Ledger, recipient: &Address, amount: &U256) -> (r:
        Result<PrecompileOutput, Rejection>)
        requires
            old(ledger).wf(),
        ensures
            final(ledger).wf(),
            old(ledger).bal(*recipient) + u256_val(*amount) < pow256(32) ==> (is_success(r)
                && mints_to(*old(ledger), *final(ledger), *recipient, u256_val(*amount))),
            old(ledger).bal(*recipient) + u256_val(*amount) >= pow256(32) ==> (r == Err::<
                PrecompileOutput,
                Rejection,
            >(Rejection::LedgerError) && *final(ledger) == *old(ledger)),
    {
        match ledger.credit(recipient, amount) {
            Ok(()) => {
                let out = PrecompileOutput { gas_used: NATIVE_MINTER_GAS_COST, output: Vec::new() };
                proof {
                    assert(out.output@ =~= Seq::<u8>::empty());
                }
                Ok(out)
            },
            Err(()) => Err(Rejection::LedgerError),
        }
    }

    /// Debits `amount` from `from`: the one ledger mutation of a burn. A
    /// balance below `amount` is a rejection of its own, checked before any
    /// mutation; the subtraction itself is exact.
    pub fn execute_burn(&self, ledger: &mut Ledger, from: &Address, amount: &U256) -> (r: Result<
        PrecompileOutput,
        Rejection,
    >)
        requires
            old(ledger).wf(),
        ensures
            final(ledger).wf(),
            u256_val(*amount) <= old(ledger).bal(*from) ==> (is_success(r) && burns_from(
                *old(ledger),
                *final(ledger),
                *from,
                u256_val(*amount),
            )),
            u256_val(*amount) > old(ledger).bal(*from) ==> (r == Err::<
                PrecompileOutput,
                Rejection,
            >(Rejection::InsufficientBalance) && *final(ledger) == *old(ledger)),
    {
        let current = ledger.balance_of(from);
        match current.checked_sub(amount) {
            None => Err(Rejection::InsufficientBalance),
            Some(new_balance) => {
                ledger.set_balance(from, new_balance);
                let out = PrecompileOutput { gas_used: NATIVE_MINTER_GAS_COST, output: Vec::new() };
                proof {
                    assert(out.output@ =~= Seq::<u8>::empty());
                }
                Ok(out)
            },
        }
    }
}

/// The mint selector's four bytes, for callers outside the proof.
pub fn mint_selector_bytes() -> (r: Vec<u8>)
    ensures
        r@ == mint_selector(),
{
    let mut v: Vec<u8> = Vec::new();
    v.push(0x40);
    v.push(0xc1);
    v.push(0x0f);
    v.push(0x19);
    proof {
        assert(v@ =~= mint_selector());
    }
    v
}

/// The burn selector's four bytes, for callers outside the proof.
pub fn burn_selector_bytes() -> (r: Vec<u8>)
    ensures
        r@ == burn_selector(),
{
    let mut v: Vec<u8> = Vec::new();
    v.push(0x9d);
    v.push(0xc2);
    v.push(0x9f);
    v.push(0xac);
    proof {
        assert(v@ =~= burn_selector());
    }
    v
}

/// Authorization is total: a call from any address other than the configured
/// one that passes the gas, call-kind and read-only gates is rejected as
/// `Unauthorized`, whatever its payload holds — in particular, before any
/// argument is decoded.
pub proof fn lemma_authorization_total(authorized: Address, ctx: CallContext)
    requires
        ctx.gas >= NATIVE_MINTER_GAS_COST,
        !ctx.delegated,
        !ctx.read_only,
        ctx.caller != authorized,
    ensures
        decide(authorized, ctx) == Err::<SpecOp, Rejection>(Rejection::Unauthorized),
{
}

/// A delegated call is rejected as `DelegationNotPermitted` even when caller,
/// gas and payload are all otherwise valid.
pub proof fn lemma_delegation_gated(authorized: Address, ctx: CallContext)
    requires
        ctx.gas >= NATIVE_MINTER_GAS_COST,
        ctx.delegated,
    ensures
        decide(authorized, ctx) == Err::<SpecOp, Rejection>(Rejection::DelegationNotPermitted),
{
}

/// A read-only call is rejected as `MutationInReadOnlyContext` even when
/// caller, gas and payload are all otherwise valid.
pub proof fn lemma_read_only_gated(authorized: Address, ctx: CallContext)
    requires
        ctx.gas >= NATIVE_MINTER_GAS_COST,
        !ctx.delegated,
        ctx.read_only,
    ensures
        decide(authorized, ctx) == Err::<SpecOp, Rejection>(Rejection::MutationInReadOnlyContext),
{
}

/// The mint selector routes only to the mint operation: an authorized,
/// direct, mutating call whose 68-byte payload opens with it decodes into
/// exactly the recipient and amount its argument slots spell.
pub proof fn lemma_mint_selector_routes(authorized: Address, ctx: CallContext)
    requires
        ctx.gas >= NATIVE_MINTER_GAS_COST,
        !ctx.delegated,
        !ctx.read_only,
        ctx.caller == authorized,
        is_mint_selector(ctx.payload@),
        ctx.payload@.len() == 68,
    ensures
        decide(authorized, ctx) == Ok::<SpecOp, Rejection>(
            SpecOp::Mint {
                to: addr_from_bytes(ctx.payload@.subrange(16, 36)),
                amount: be_val(ctx.payload@.subrange(36, 68)),
            },
        ),
{
}

/// Flipping any single bit of the mint selector yields a payload that matches
/// neither selector, so an otherwise valid call carrying it is rejected as
/// `UnknownOperation` — never misrouted into a decode.
pub proof fn lemma_mint_selector_bit_flip(authorized: Address, ctx: CallContext, i: int, j: u8)
    requires
        ctx.gas >= NATIVE_MINTER_GAS_COST,
        !ctx.delegated,
        !ctx.read_only,
        ctx.caller == authorized,
        ctx.payload@.len() >= 4,
        0 <= i < 4,
        j < 8,
        forall|k: int| 0 <= k < 4 && k != i ==> ctx.payload@[k] == mint_selector()[k],
        ctx.payload@[i] == mint_selector()[i] ^ (1u8 << j),
    ensures
        decide(authorized, ctx) == Err::<SpecOp, Rejection>(Rejection::UnknownOperation),
{
    assert(forall|b: u8, j: u8| j < 8 ==> b ^ (1u8 << j) != b) by (bit_vector);
    assert(!is_mint_selector(ctx.payload@));
    if i != 0 {
        assert(ctx.payload@[0] == 0x40);
        assert(!is_burn_selector(ctx.payload@));
    } else {
        assert(ctx.payload@[1] == 0xc1);
        assert(!is_burn_selector(ctx.payload@));
    }
}

/// Minting an amount to an account and then burning the same amount from it
/// restores every balance — the burned account's and everyone else's — to
/// what it was before the mint. `mints_to` and `burns_from` are exactly the
/// ledger transitions `call` establishes for the two operations.
pub proof fn lemma_mint_burn_round_trip(
    l0: Ledger,
    l1: Ledger,
    l2: Ledger,
    x: Address,
    amount: nat,
)
    requires
        mints_to(l0, l1, x, amount),
        burns_from(l1, l2, x, amount),
    ensures
        forall|a: Address| l2.bal(a) == l0.bal(a),
{
    assert forall|a: Address| l2.bal(a) == l0.bal(a) by {
        if a != x {
            assert(l1.bal(a) == l0.bal(a));
            assert(l2.bal(a) == l1.bal(a));
        }
    }
}

} // verus!
