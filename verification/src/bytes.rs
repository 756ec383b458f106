//! Big-endian byte-string valuation.
//!
//! The call payload carries a 20-byte address and a 256-bit amount, each as a
//! big-endian byte string inside a 32-byte slot. `be_val` gives such a string
//! its value as an unbounded natural number; `be_word` is the verified reader
//! for chunks of up to eight bytes, out of which the wider decoders are built.

use vstd::prelude::*;

verus! {

/// The value of a big-endian byte string, as a natural number.
pub open spec fn be_val(s: Seq<u8>) -> nat
    decreases s.len(),
{
    if s.len() == 0 {
        0
    } else {
        be_val(s.drop_last()) * 256 + s.last() as nat
    }
}

/// 256 to the power `n`: one more than the largest value of an `n`-byte string.
pub open spec fn pow256(n: nat) -> nat
    decreases n,
{
    if n == 0 {
        1
    } else {
        256 * pow256((n - 1) as nat)
    }
}

/// `pow256` at the lengths the decoders work with, as literals.
pub proof fn lemma_pow256_values()
    ensures
        pow256(0) == 1,
        pow256(1) == 0x100,
        pow256(2) == 0x1_0000,
        pow256(3) == 0x100_0000,
        pow256(4) == 0x1_0000_0000,
        pow256(5) == 0x100_0000_0000,
        pow256(6) == 0x1_0000_0000_0000,
        pow256(7) == 0x100_0000_0000_0000,
        pow256(8) == 0x1_0000_0000_0000_0000,
        pow256(16) == 0x1_0000_0000_0000_0000_0000_0000_0000_0000,
        pow256(24) == 0x1_0000_0000_0000_0000_0000_0000_0000_0000_0000_0000_0000_0000,
        pow256(32)
            == 0x1_0000_0000_0000_0000_0000_0000_0000_0000_0000_0000_0000_0000_0000_0000_0000_0000,
{
    assert(pow256(0) == 1);
    assert(pow256(1) == 0x100);
    assert(pow256(2) == 0x1_0000);
    assert(pow256(3) == 0x100_0000);
    assert(pow256(4) == 0x1_0000_0000);
    assert(pow256(5) == 0x100_0000_0000);
    assert(pow256(6) == 0x1_0000_0000_0000);
    assert(pow256(7) == 0x100_0000_0000_0000);
    assert(pow256(8) == 0x1_0000_0000_0000_0000);
    assert(pow256(9) == 256 * pow256(8));
    assert(pow256(10) == 256 * pow256(9));
    assert(pow256(11) == 256 * pow256(10));
    assert(pow256(12) == 256 * pow256(11));
    assert(pow256(13) == 256 * pow256(12));
    assert(pow256(14) == 256 * pow256(13));
    assert(pow256(15) == 256 * pow256(14));
    assert(pow256(16) == 256 * pow256(15));
    assert(pow256(17) == 256 * pow256(16));
    assert(pow256(18) == 256 * pow256(17));
    assert(pow256(19) == 256 * pow256(18));
    assert(pow256(20) == 256 * pow256(19));
    assert(pow256(21) == 256 * pow256(20));
    assert(pow256(22) == 256 * pow256(21));
    assert(pow256(23) == 256 * pow256(22));
    assert(pow256(24) == 256 * pow256(23));
    assert(pow256(25) == 256 * pow256(24));
    assert(pow256(26) == 256 * pow256(25));
    assert(pow256(27) == 256 * pow256(26));
    assert(pow256(28) == 256 * pow256(27));
    assert(pow256(29) == 256 * pow256(28));
    assert(pow256(30) == 256 * pow256(29));
    assert(pow256(31) == 256 * pow256(30));
    assert(pow256(32) == 256 * pow256(31));
}

pub proof fn lemma_pow256_pos(n: nat)
    ensures
        pow256(n) >= 1,
    decreases n,
{
    if n > 0 {
        lemma_pow256_pos((n - 1) as nat);
    }
}

pub proof fn lemma_pow256_mono(i: nat, j: nat)
    requires
        i <= j,
    ensures
        pow256(i) <= pow256(j),
    decreases j,
{
    if i < j {
        lemma_pow256_mono(i, (j - 1) as nat);
        lemma_pow256_pos((j - 1) as nat);
    }
}

/// Splitting a byte string splits its value: the head is weighted by the
/// length of the tail.
pub proof fn lemma_be_val_concat(a: Seq<u8>, b: Seq<u8>)
    ensures
        be_val(a + b) == be_val(a) * pow256(b.len()) + be_val(b),
    decreases b.len(),
{
    if b.len() == 0 {
        assert(a + b =~= a);
        assert(be_val(a) * pow256(0) == be_val(a) * 1);
    } else {
        let b0 = b.drop_last();
        lemma_be_val_concat(a, b0);
        assert((a + b).drop_last() =~= a + b0);
        assert((a + b).last() == b.last());
        let x = be_val(a);
        let p = pow256(b0.len());
        let y = be_val(b0);
        let c = b.last() as nat;
        assert(be_val(a + b) == (x * p + y) * 256 + c);
        assert((x * p + y) * 256 + c == x * (256 * p) + (y * 256 + c)) by (nonlinear_arith);
        assert(pow256(b.len()) == 256 * p);
    }
}

/// Reads `n` big-endian bytes (`n <= 8`) starting at `start` as one integer.
pub fn be_word(data: &Vec<u8>, start: usize, n: usize) -> (r: u64)
    requires
        n <= 8,
        start + n <= data@.len(),
    ensures
        r == be_val(data@.subrange(start as int, start as int + n as int)),
        r < pow256(n as nat),
{
    proof {
        lemma_pow256_values();
    }
    let dlen = data.len();
    let mut acc: u64 = 0;
    let mut i: usize = 0;
    while i < n
        invariant
            n <= 8,
            start + n <= dlen,
            dlen == data@.len(),
            i <= n,
            acc == be_val(data@.subrange(start as int, start as int + i as int)),
            acc < pow256(i as nat),
        decreases n - i,
    {
        proof {
            lemma_pow256_values();
            lemma_pow256_mono(i as nat, 7);
        }
        let b = data[start + i];
        proof {
            let s_old = data@.subrange(start as int, start as int + i as int);
            let s_new = data@.subrange(start as int, start as int + i as int + 1);
            assert(s_new =~= s_old.push(b));
            assert(s_new.drop_last() =~= s_old);
        }
        acc = acc * 256 + (b as u64);
        i = i + 1;
    }
    acc
}

} // verus!
