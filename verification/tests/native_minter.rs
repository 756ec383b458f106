use rkb::{Address, CallContext, Ledger, NativeMinterPrecompile, Rejection, U256,
    NATIVE_MINTER_GAS_COST};

fn addr(bytes: [u8; 20]) -> Address {
    let v: Vec<u8> = bytes.to_vec();
    Address::from_be_bytes(&v, 0)
}

fn bridge_a() -> Address {
    addr([
        0x12, 0x34, 0x56, 0x78, 0x90, 0xab, 0xcd, 0xef, 0x12, 0x34, 0x56, 0x78, 0x90, 0xab, 0xcd,
        0xef, 0x12, 0x34, 0x56, 0x78,
    ])
}

fn account_b_bytes() -> [u8; 20] {
    [
        0xaa, 0x01, 0x02, 0x03, 0x04, 0x05, 0x06, 0x07, 0x08, 0x09, 0x0a, 0x0b, 0x0c, 0x0d, 0x0e,
        0x0f, 0x10, 0x11, 0x12, 0x13,
    ]
}

fn account_b() -> Address {
    addr(account_b_bytes())
}

/// selector ++ 12 zero bytes ++ 20-byte target ++ 32-byte big-endian amount
fn payload(selector: [u8; 4], target: [u8; 20], amount_be32: [u8; 32]) -> Vec<u8> {
    let mut p = Vec::new();
    p.extend_from_slice(&selector);
    p.extend_from_slice(&[0u8; 12]);
    p.extend_from_slice(&target);
    p.extend_from_slice(&amount_be32);
    p
}

fn amount_bytes(n: u64) -> [u8; 32] {
    let mut b = [0u8; 32];
    b[24..32].copy_from_slice(&n.to_be_bytes());
    b
}

const MINT: [u8; 4] = [0x40, 0xc1, 0x0f, 0x19];
const BURN: [u8; 4] = [0x9d, 0xc2, 0x9f, 0xac];

fn mutating_call(caller: Address, gas: u64, payload: Vec<u8>) -> CallContext {
    CallContext { caller, delegated: false, read_only: false, gas, payload }
}

#[test]
fn test_mint_selector() {
    // mint(address,uint256) = keccak256("mint(address,uint256)")[0:4]
    let expected: Vec<u8> = vec![0x40, 0xc1, 0x0f, 0x19];
    assert_eq!(rkb::mint_selector_bytes(), expected);
}

#[test]
fn test_burn_selector() {
    // burn(address,uint256) = keccak256("burn(address,uint256)")[0:4]
    let expected: Vec<u8> = vec![0x9d, 0xc2, 0x9f, 0xac];
    assert_eq!(rkb::burn_selector_bytes(), expected);
}

#[test]
fn test_selectors_match_abi_convention() {
    let mint_hash = alloy_primitives::keccak256(b"mint(address,uint256)");
    assert_eq!(rkb::mint_selector_bytes().as_slice(), &mint_hash[0..4]);
    let burn_hash = alloy_primitives::keccak256(b"burn(address,uint256)");
    assert_eq!(rkb::burn_selector_bytes().as_slice(), &burn_hash[0..4]);
}

#[test]
fn test_precompile_address() {
    let mut b = [0u8; 20];
    b[18] = 0x04;
    b[19] = 0x20;
    assert_eq!(rkb::native_minter_address(), addr(b));
    let parsed: alloy_primitives::Address =
        "0x0000000000000000000000000000000000000420".parse().unwrap();
    assert_eq!(rkb::native_minter_address(), addr(parsed.0 .0));
}

#[test]
fn test_mint_success_scenario() {
    let a = bridge_a();
    let p = NativeMinterPrecompile::new(a);
    let mut ledger = Ledger::new();
    let ctx = mutating_call(a, 10000, payload(MINT, account_b_bytes(), amount_bytes(1000)));
    let r = p.call(&ctx, &mut ledger);
    let out = r.expect("authorized well-formed mint must succeed");
    assert_eq!(out.gas_used, NATIVE_MINTER_GAS_COST);
    assert!(out.output.is_empty());
    assert_eq!(ledger.balance_of(&account_b()), U256::from_u64(1000));
}

#[test]
fn test_mint_adds_to_existing_balance() {
    let a = bridge_a();
    let p = NativeMinterPrecompile::new(a);
    let mut ledger = Ledger::new();
    ledger.set_balance(&account_b(), U256::from_u64(7));
    let ctx = mutating_call(a, 10000, payload(MINT, account_b_bytes(), amount_bytes(1000)));
    p.call(&ctx, &mut ledger).unwrap();
    assert_eq!(ledger.balance_of(&account_b()), U256::from_u64(1007));
}

#[test]
fn test_unauthorized_caller_scenario() {
    let a = bridge_a();
    let c = addr([0x77; 20]);
    assert_ne!(a, c);
    let p = NativeMinterPrecompile::new(a);
    let mut ledger = Ledger::new();
    ledger.set_balance(&account_b(), U256::from_u64(55));
    let before = ledger.clone();
    let ctx = mutating_call(c, 10000, payload(MINT, account_b_bytes(), amount_bytes(1000)));
    let r = p.call(&ctx, &mut ledger);
    assert_eq!(r, Err(Rejection::Unauthorized));
    assert_eq!(ledger, before);
    assert_eq!(ledger.balance_of(&account_b()), U256::from_u64(55));
}

#[test]
fn test_out_of_gas_scenario() {
    let a = bridge_a();
    let p = NativeMinterPrecompile::new(a);
    let mut ledger = Ledger::new();
    let before = ledger.clone();
    let ctx = mutating_call(a, 10, payload(MINT, account_b_bytes(), amount_bytes(1000)));
    let r = p.call(&ctx, &mut ledger);
    assert_eq!(r, Err(Rejection::OutOfGas));
    assert_eq!(ledger, before);
}

#[test]
fn test_delegated_call_rejected() {
    let a = bridge_a();
    let p = NativeMinterPrecompile::new(a);
    let mut ledger = Ledger::new();
    let before = ledger.clone();
    let ctx = CallContext {
        caller: a,
        delegated: true,
        read_only: false,
        gas: 10000,
        payload: payload(MINT, account_b_bytes(), amount_bytes(1000)),
    };
    let r = p.call(&ctx, &mut ledger);
    assert_eq!(r, Err(Rejection::DelegationNotPermitted));
    assert_eq!(ledger, before);
}

#[test]
fn test_read_only_call_rejected() {
    let a = bridge_a();
    let p = NativeMinterPrecompile::new(a);
    let mut ledger = Ledger::new();
    let before = ledger.clone();
    let ctx = CallContext {
        caller: a,
        delegated: false,
        read_only: true,
        gas: 10000,
        payload: payload(MINT, account_b_bytes(), amount_bytes(1000)),
    };
    let r = p.call(&ctx, &mut ledger);
    assert_eq!(r, Err(Rejection::MutationInReadOnlyContext));
    assert_eq!(ledger, before);
}

#[test]
fn test_short_payload_rejected() {
    let a = bridge_a();
    let p = NativeMinterPrecompile::new(a);
    let mut ledger = Ledger::new();
    let before = ledger.clone();
    let ctx = mutating_call(a, 10000, vec![0x40, 0xc1, 0x0f]);
    let r = p.call(&ctx, &mut ledger);
    assert_eq!(r, Err(Rejection::MalformedCall));
    assert_eq!(ledger, before);
}

#[test]
fn test_wrong_argument_length_rejected() {
    let a = bridge_a();
    let p = NativeMinterPrecompile::new(a);
    let mut ledger = Ledger::new();
    let before = ledger.clone();

    let mut short = payload(MINT, account_b_bytes(), amount_bytes(1000));
    short.pop();
    let r = p.call(&mutating_call(a, 10000, short), &mut ledger);
    assert_eq!(r, Err(Rejection::MalformedCall));

    let mut long = payload(BURN, account_b_bytes(), amount_bytes(1000));
    long.push(0);
    let r = p.call(&mutating_call(a, 10000, long), &mut ledger);
    assert_eq!(r, Err(Rejection::MalformedCall));
    assert_eq!(ledger, before);
}

#[test]
fn test_unknown_selector_rejected() {
    let a = bridge_a();
    let p = NativeMinterPrecompile::new(a);
    let mut ledger = Ledger::new();
    let before = ledger.clone();
    let ctx = mutating_call(a, 10000, payload([0, 1, 2, 3], account_b_bytes(), amount_bytes(1)));
    let r = p.call(&ctx, &mut ledger);
    assert_eq!(r, Err(Rejection::UnknownOperation));
    assert_eq!(ledger, before);
}

#[test]
fn test_selector_bit_flips_rejected() {
    let a = bridge_a();
    let p = NativeMinterPrecompile::new(a);
    for selector in [MINT, BURN] {
        for i in 0..4usize {
            for j in 0..8u8 {
                let mut flipped = selector;
                flipped[i] ^= 1u8 << j;
                let mut ledger = Ledger::new();
                let before = ledger.clone();
                let ctx =
                    mutating_call(a, 10000, payload(flipped, account_b_bytes(), amount_bytes(1)));
                let r = p.call(&ctx, &mut ledger);
                assert_eq!(r, Err(Rejection::UnknownOperation));
                assert_eq!(ledger, before);
            }
        }
    }
}

#[test]
fn test_burn_success() {
    let a = bridge_a();
    let p = NativeMinterPrecompile::new(a);
    let mut ledger = Ledger::new();
    ledger.set_balance(&account_b(), U256::from_u64(1000));
    let ctx = mutating_call(a, 10000, payload(BURN, account_b_bytes(), amount_bytes(400)));
    let out = p.call(&ctx, &mut ledger).expect("burn within balance must succeed");
    assert_eq!(out.gas_used, NATIVE_MINTER_GAS_COST);
    assert!(out.output.is_empty());
    assert_eq!(ledger.balance_of(&account_b()), U256::from_u64(600));
}

#[test]
fn test_burn_insufficient_balance() {
    let a = bridge_a();
    let p = NativeMinterPrecompile::new(a);
    let mut ledger = Ledger::new();
    ledger.set_balance(&account_b(), U256::from_u64(5));
    let before = ledger.clone();
    let ctx = mutating_call(a, 10000, payload(BURN, account_b_bytes(), amount_bytes(10)));
    let r = p.call(&ctx, &mut ledger);
    assert_eq!(r, Err(Rejection::InsufficientBalance));
    assert_eq!(ledger, before);
    assert_eq!(ledger.balance_of(&account_b()), U256::from_u64(5));
}

#[test]
fn test_mint_burn_round_trip() {
    let a = bridge_a();
    let p = NativeMinterPrecompile::new(a);
    let mut ledger = Ledger::new();
    ledger.set_balance(&account_b(), U256::from_u64(7));
    let mint = mutating_call(a, 10000, payload(MINT, account_b_bytes(), amount_bytes(1000)));
    p.call(&mint, &mut ledger).unwrap();
    let burn = mutating_call(a, 10000, payload(BURN, account_b_bytes(), amount_bytes(1000)));
    p.call(&burn, &mut ledger).unwrap();
    assert_eq!(ledger.balance_of(&account_b()), U256::from_u64(7));
}

#[test]
fn test_mint_overflow_is_ledger_error() {
    let a = bridge_a();
    let p = NativeMinterPrecompile::new(a);
    let mut ledger = Ledger::new();
    let max = U256::from_be_bytes(&vec![0xffu8; 32], 0);
    ledger.set_balance(&account_b(), max);
    let before = ledger.clone();
    let ctx = mutating_call(a, 10000, payload(MINT, account_b_bytes(), amount_bytes(1)));
    let r = p.call(&ctx, &mut ledger);
    assert_eq!(r, Err(Rejection::LedgerError));
    assert_eq!(ledger, before);
}

#[test]
fn test_decode_reads_padded_address_and_amount() {
    // A mint for an address whose bytes straddle all three packed fields,
    // with an amount wider than 64 bits.
    let a = bridge_a();
    let p = NativeMinterPrecompile::new(a);
    let mut ledger = Ledger::new();
    let target = [
        0xde, 0xad, 0xbe, 0xef, 0x01, 0x02, 0x03, 0x04, 0x05, 0x06, 0x07, 0x08, 0x09, 0x0a, 0x0b,
        0x0c, 0x0d, 0x0e, 0x0f, 0x42,
    ];
    let mut amount = [0u8; 32];
    amount[23] = 1; // 2^64
    let ctx = mutating_call(a, 10000, payload(MINT, target, amount));
    p.call(&ctx, &mut ledger).unwrap();
    let got = ledger.balance_of(&addr(target));
    let expected = {
        let mut b = vec![0u8; 32];
        b[23] = 1;
        U256::from_be_bytes(&b, 0)
    };
    assert_eq!(got, expected);
    assert_eq!(ledger.balance_of(&account_b()), U256::from_u64(0));
}

#[test]
fn test_authorized_bridge_getter() {
    let a = bridge_a();
    let p = NativeMinterPrecompile::new(a);
    assert_eq!(p.authorized_bridge(), a);
}

#[test]
fn test_gas_cost_constant() {
    assert_eq!(NATIVE_MINTER_GAS_COST, 6000);
}
