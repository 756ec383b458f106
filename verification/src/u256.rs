//! A 256-bit unsigned amount, held as four 64-bit limbs.
//!
//! Balances and mint/burn amounts have at least 256-bit range; `u256_val`
//! gives a value's meaning as an unbounded natural number, and the arithmetic
//! here is exact: `checked_add` and `checked_sub` report overflow and
//! underflow instead of wrapping.

use crate::bytes::{be_val, be_word, lemma_be_val_concat, lemma_pow256_values, pow256};
use vstd::prelude::*;

verus! {

/// A 256-bit unsigned integer; `l3` is the most significant limb.
#[derive(Clone, Copy, PartialEq, Eq, Structural, Debug)]
pub struct U256 {
    pub l3: u64,
    pub l2: u64,
    pub l1: u64,
    pub l0: u64,
}

/// The value of a `U256`, as a natural number.
pub open spec fn u256_val(u: U256) -> nat {
    u.l3 as nat * 0x1_0000_0000_0000_0000_0000_0000_0000_0000_0000_0000_0000_0000
        + u.l2 as nat * 0x1_0000_0000_0000_0000_0000_0000_0000_0000
        + u.l1 as nat * 0x1_0000_0000_0000_0000 + u.l0 as nat
}

/// Every `U256` value lies below `pow256(32)`.
pub proof fn lemma_u256_val_bound(u: U256)
    ensures
        u256_val(u) < pow256(32),
{
    lemma_pow256_values();
}

impl U256 {
    /// The value `x`, widened.
    pub fn from_u64(x: u64) -> (r: U256)
        ensures
            u256_val(r) == x,
    {
        U256 { l3: 0, l2: 0, l1: 0, l0: x }
    }

    /// Reads the 32 bytes starting at `start` as one big-endian integer.
    pub fn from_be_bytes(data: &Vec<u8>, start: usize) -> (r: U256)
        requires
            start + 32 <= data@.len(),
        ensures
            u256_val(r) == be_val(data@.subrange(start as int, start as int + 32)),
    {
        // binding the length as a usize keeps the chunk offsets in range
        let _dlen = data.len();
        let l3 = be_word(data, start, 8);
        let l2 = be_word(data, start + 8, 8);
        let l1 = be_word(data, start + 16, 8);
        let l0 = be_word(data, start + 24, 8);
        proof {
            lemma_pow256_values();
            let w = data@.subrange(start as int, start as int + 32);
            let a = data@.subrange(start as int, start as int + 8);
            let bcd = data@.subrange(start as int + 8, start as int + 32);
            assert(w =~= a + bcd);
            lemma_be_val_concat(a, bcd);
            let b = data@.subrange(start as int + 8, start as int + 16);
            let cd = data@.subrange(start as int + 16, start as int + 32);
            assert(bcd =~= b + cd);
            lemma_be_val_concat(b, cd);
            let c = data@.subrange(start as int + 16, start as int + 24);
            let d = data@.subrange(start as int + 24, start as int + 32);
            assert(cd =~= c + d);
            lemma_be_val_concat(c, d);
        }
        U256 { l3, l2, l1, l0 }
    }

    /// Strict comparison of values.
    pub fn less_than(&self, other: &U256) -> (r: bool)
        ensures
            r == (u256_val(*self) < u256_val(*other)),
    {
        if self.l3 != other.l3 {
            self.l3 < other.l3
        } else if self.l2 != other.l2 {
            self.l2 < other.l2
        } else if self.l1 != other.l1 {
            self.l1 < other.l1
        } else {
            self.l0 < other.l0
        }
    }

    /// Exact addition: `None` exactly when the sum does not fit in 256 bits.
    pub fn checked_add(&self, other: &U256) -> (r: Option<U256>)
        ensures
            match r {
                Some(v) => u256_val(v) == u256_val(*self) + u256_val(*other),
                None => u256_val(*self) + u256_val(*other) >= pow256(32),
            },
    {
        proof {
            lemma_pow256_values();
        }
        let s0: u128 = self.l0 as u128 + other.l0 as u128;
        let r0: u64 = (s0 % 0x1_0000_0000_0000_0000u128) as u64;
        let c0: u128 = s0 / 0x1_0000_0000_0000_0000u128;
        let s1: u128 = self.l1 as u128 + other.l1 as u128 + c0;
        let r1: u64 = (s1 % 0x1_0000_0000_0000_0000u128) as u64;
        let c1: u128 = s1 / 0x1_0000_0000_0000_0000u128;
        let s2: u128 = self.l2 as u128 + other.l2 as u128 + c1;
        let r2: u64 = (s2 % 0x1_0000_0000_0000_0000u128) as u64;
        let c2: u128 = s2 / 0x1_0000_0000_0000_0000u128;
        let s3: u128 = self.l3 as u128 + other.l3 as u128 + c2;
        let r3: u64 = (s3 % 0x1_0000_0000_0000_0000u128) as u64;
        let c3: u128 = s3 / 0x1_0000_0000_0000_0000u128;
        let out = U256 { l3: r3, l2: r2, l1: r1, l0: r0 };
        proof {
            assert(s0 == c0 * 0x1_0000_0000_0000_0000 + r0);
            assert(s1 == c1 * 0x1_0000_0000_0000_0000 + r1);
            assert(s2 == c2 * 0x1_0000_0000_0000_0000 + r2);
            assert(s3 == c3 * 0x1_0000_0000_0000_0000 + r3);
            assert(u256_val(*self) + u256_val(*other) == u256_val(out) + c3
                * 0x1_0000_0000_0000_0000_0000_0000_0000_0000_0000_0000_0000_0000_0000_0000_0000_0000);
            lemma_u256_val_bound(out);
        }
        if c3 == 0 {
            Some(out)
        } else {
            None
        }
    }

    /// Exact subtraction: `None` exactly when `other` exceeds `self`.
    pub fn checked_sub(&self, other: &U256) -> (r: Option<U256>)
        ensures
            match r {
                Some(v) => u256_val(*other) <= u256_val(*self) && u256_val(v) == u256_val(*self)
                    - u256_val(*other),
                None => u256_val(*self) < u256_val(*other),
            },
    {
        proof {
            lemma_pow256_values();
        }
        let d0: u128 = 0x1_0000_0000_0000_0000u128 + self.l0 as u128 - other.l0 as u128;
        let r0: u64 = (d0 % 0x1_0000_0000_0000_0000u128) as u64;
        let k0: u128 = 1 - d0 / 0x1_0000_0000_0000_0000u128;
        let d1: u128 = 0x1_0000_0000_0000_0000u128 + self.l1 as u128 - other.l1 as u128 - k0;
        let r1: u64 = (d1 % 0x1_0000_0000_0000_0000u128) as u64;
        let k1: u128 = 1 - d1 / 0x1_0000_0000_0000_0000u128;
        let d2: u128 = 0x1_0000_0000_0000_0000u128 + self.l2 as u128 - other.l2 as u128 - k1;
        let r2: u64 = (d2 % 0x1_0000_0000_0000_0000u128) as u64;
        let k2: u128 = 1 - d2 / 0x1_0000_0000_0000_0000u128;
        let d3: u128 = 0x1_0000_0000_0000_0000u128 + self.l3 as u128 - other.l3 as u128 - k2;
        let r3: u64 = (d3 % 0x1_0000_0000_0000_0000u128) as u64;
        let k3: u128 = 1 - d3 / 0x1_0000_0000_0000_0000u128;
        let out = U256 { l3: r3, l2: r2, l1: r1, l0: r0 };
        proof {
            assert(d0 == (d0 / 0x1_0000_0000_0000_0000) * 0x1_0000_0000_0000_0000 + r0);
            assert(d1 == (d1 / 0x1_0000_0000_0000_0000) * 0x1_0000_0000_0000_0000 + r1);
            assert(d2 == (d2 / 0x1_0000_0000_0000_0000) * 0x1_0000_0000_0000_0000 + r2);
            assert(d3 == (d3 / 0x1_0000_0000_0000_0000) * 0x1_0000_0000_0000_0000 + r3);
            assert(u256_val(*self) - u256_val(*other) == u256_val(out) - k3
                * 0x1_0000_0000_0000_0000_0000_0000_0000_0000_0000_0000_0000_0000_0000_0000_0000_0000);
            lemma_u256_val_bound(out);
        }
        if k3 == 0 {
            Some(out)
        } else {
            None
        }
    }
}

} // verus!
