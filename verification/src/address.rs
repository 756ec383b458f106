//! A 20-byte account identifier, held as three plain integers.
//!
//! The four leading bytes sit in `hi`, the next eight in `mid`, the final
//! eight in `lo`, all big-endian, so two addresses are equal exactly when
//! their byte strings are. The all-zero address is the documented insecure
//! default configuration and never authorizes anything in production.

use crate::bytes::{be_val, be_word, lemma_pow256_values};
use vstd::prelude::*;

verus! {

/// A 20-byte address: `hi` holds bytes 0..4, `mid` bytes 4..12, `lo`
/// bytes 12..20, each big-endian.
#[derive(Clone, Copy, PartialEq, Eq, Structural, Debug)]
pub struct Address {
    pub hi: u32,
    pub mid: u64,
    pub lo: u64,
}

/// The address packed from a 20-byte big-endian string.
pub open spec fn addr_from_bytes(s: Seq<u8>) -> Address {
    Address {
        hi: be_val(s.subrange(0, 4)) as u32,
        mid: be_val(s.subrange(4, 12)) as u64,
        lo: be_val(s.subrange(12, 20)) as u64,
    }
}

/// The all-zero address.
pub open spec fn spec_addr_zero() -> Address {
    Address { hi: 0, mid: 0, lo: 0 }
}

impl Address {
    /// Packs the 20 bytes starting at `start` into an address.
    pub fn from_be_bytes(data: &Vec<u8>, start: usize) -> (r: Address)
        requires
            start + 20 <= data@.len(),
        ensures
            r == addr_from_bytes(data@.subrange(start as int, start as int + 20)),
    {
        // binding the length as a usize keeps the chunk offsets in range
        let _dlen = data.len();
        let hi64 = be_word(data, start, 4);
        let mid = be_word(data, start + 4, 8);
        let lo = be_word(data, start + 12, 8);
        proof {
            lemma_pow256_values();
            let w = data@.subrange(start as int, start as int + 20);
            assert(w.subrange(0, 4) =~= data@.subrange(start as int, start as int + 4));
            assert(w.subrange(4, 12) =~= data@.subrange(start as int + 4, start as int + 12));
            assert(w.subrange(12, 20) =~= data@.subrange(start as int + 12, start as int + 20));
        }
        Address { hi: hi64 as u32, mid, lo }
    }

    /// The all-zero address.
    pub fn zero() -> (r: Address)
        ensures
            r == spec_addr_zero(),
    {
        Address { hi: 0, mid: 0, lo: 0 }
    }
}

} // verus!
