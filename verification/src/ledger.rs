//! An in-memory account ledger.
//!
//! The precompile only ever needs two capabilities from its host: read an
//! account's balance and set it to a new value. `Ledger` supplies exactly
//! those, over an association list with unique keys, and `credit` composes
//! them into the exact balance increase that a mint performs. A hosting EVM
//! supplies the same two capabilities for its own state; the decision logic
//! here is proved against this interface.

use crate::address::Address;
use crate::bytes::pow256;
use crate::u256::{u256_val, U256};
use vstd::prelude::*;

verus! {

/// Balances by account, with one entry per address.
#[derive(Clone, Debug, PartialEq, Eq)]
pub struct Ledger {
    entries: Vec<(Address, U256)>,
}

/// The balance recorded for `a` in `s`: the first matching entry, or zero.
spec fn spec_find(s: Seq<(Address, U256)>, a: Address) -> nat
    decreases s.len(),
{
    if s.len() == 0 {
        0
    } else if s[0].0 == a {
        u256_val(s[0].1)
    } else {
        spec_find(s.drop_first(), a)
    }
}

/// Whether `s` holds an entry for `a`.
spec fn has_addr(s: Seq<(Address, U256)>, a: Address) -> bool
    decreases s.len(),
{
    s.len() > 0 && (s[0].0 == a || has_addr(s.drop_first(), a))
}

proof fn lemma_find_absent(s: Seq<(Address, U256)>, a: Address)
    requires
        !has_addr(s, a),
    ensures
        spec_find(s, a) == 0,
    decreases s.len(),
{
    if s.len() > 0 {
        lemma_find_absent(s.drop_first(), a);
    }
}

proof fn lemma_find_push(s: Seq<(Address, U256)>, p: (Address, U256), b: Address)
    ensures
        spec_find(s.push(p), b) == if has_addr(s, b) {
            spec_find(s, b)
        } else if p.0 == b {
            u256_val(p.1)
        } else {
            0
        },
    decreases s.len(),
{
    if s.len() == 0 {
        assert(s.push(p)[0] == p);
        assert(s.push(p).drop_first() =~= Seq::<(Address, U256)>::empty());
        assert(spec_find(Seq::<(Address, U256)>::empty(), b) == 0);
        assert(!has_addr(s, b));
    } else {
        assert(s.push(p)[0] == s[0]);
        assert(s.push(p).drop_first() =~= s.drop_first().push(p));
        lemma_find_push(s.drop_first(), p, b);
        if s[0].0 == b {
            assert(spec_find(s.push(p), b) == u256_val(s[0].1));
            assert(has_addr(s, b));
            assert(spec_find(s, b) == u256_val(s[0].1));
        } else {
            assert(spec_find(s.push(p), b) == spec_find(s.drop_first().push(p), b));
            assert(has_addr(s, b) == has_addr(s.drop_first(), b));
            assert(spec_find(s, b) == spec_find(s.drop_first(), b));
        }
    }
}

proof fn lemma_has_addr_index(s: Seq<(Address, U256)>, a: Address)
    ensures
        has_addr(s, a) <==> exists|i: int| 0 <= i < s.len() && (#[trigger] s[i]).0 == a,
    decreases s.len(),
{
    if s.len() > 0 {
        lemma_has_addr_index(s.drop_first(), a);
        if s[0].0 == a {
            assert(0 <= 0 < s.len() && s[0].0 == a);
        } else if has_addr(s.drop_first(), a) {
            let i = choose|i: int|
                0 <= i < s.drop_first().len() && (#[trigger] s.drop_first()[i]).0 == a;
            assert(s[i + 1].0 == a);
        }
        if exists|i: int| 0 <= i < s.len() && (#[trigger] s[i]).0 == a {
            let i = choose|i: int| 0 <= i < s.len() && (#[trigger] s[i]).0 == a;
            if i > 0 {
                assert(s.drop_first()[i - 1].0 == a);
            }
        }
    }
}

proof fn lemma_find_update(s: Seq<(Address, U256)>, i: int, p: (Address, U256), b: Address)
    requires
        0 <= i < s.len(),
        s[i].0 == p.0,
        forall|k: int| 0 <= k < s.len() && k != i ==> (#[trigger] s[k]).0 != p.0,
    ensures
        spec_find(s.update(i, p), b) == if p.0 == b {
            u256_val(p.1)
        } else {
            spec_find(s, b)
        },
    decreases s.len(),
{
    let t = s.update(i, p);
    if i == 0 {
        assert(t.drop_first() =~= s.drop_first());
        if p.0 != b && s[0].0 == b {
            assert(false);
        }
    } else {
        assert(t.drop_first() =~= s.drop_first().update(i - 1, p));
        assert(forall|k: int|
            0 <= k < s.drop_first().len() && k != i - 1 ==> (#[trigger] s.drop_first()[k]).0
                != p.0);
        lemma_find_update(s.drop_first(), i - 1, p, b);
        assert(t[0] == s[0]);
        if s[0].0 == p.0 {
            assert((s[0]).0 != p.0);
        }
    }
}

impl Ledger {
    /// Entries name pairwise distinct accounts.
    pub closed spec fn wf(self) -> bool {
        forall|i: int, j: int|
            #![trigger self.entries@[i], self.entries@[j]]
            0 <= i < j < self.entries@.len() ==> self.entries@[i].0 != self.entries@[j].0
    }

    /// The balance of account `a`; an account without an entry holds zero.
    pub closed spec fn bal(self, a: Address) -> nat {
        spec_find(self.entries@, a)
    }

    /// An empty ledger: every balance is zero.
    pub fn new() -> (r: Ledger)
        ensures
            r.wf(),
            forall|a: Address| r.bal(a) == 0,
    {
        Ledger { entries: Vec::new() }
    }

    /// Reads the balance of `a`.
    pub fn balance_of(&self, a: &Address) -> (r: U256)
        ensures
            u256_val(r) == self.bal(*a),
    {
        let n = self.entries.len();
        let mut i: usize = 0;
        proof {
            assert(self.entries@.skip(0) =~= self.entries@);
        }
        while i < n
            invariant
                i <= n,
                n == self.entries@.len(),
                spec_find(self.entries@.skip(i as int), *a) == self.bal(*a),
            decreases n - i,
        {
            let e = self.entries[i];
            proof {
                let rest = self.entries@.skip(i as int);
                assert(rest[0] == self.entries@[i as int]);
                assert(rest.drop_first() =~= self.entries@.skip(i as int + 1));
            }
            if e.0 == *a {
                return e.1;
            }
            i = i + 1;
        }
        proof {
            assert(self.entries@.skip(n as int) =~= Seq::<(Address, U256)>::empty());
        }
        U256::from_u64(0)
    }

    /// Sets the balance of `a` to `v`, leaving every other account as it was.
    pub fn set_balance(&mut self, a: &Address, v: U256)
        requires
            old(self).wf(),
        ensures
            final(self).wf(),
            final(self).bal(*a) == u256_val(v),
            forall|b: Address| b != *a ==> final(self).bal(b) == old(self).bal(b),
    {
        let n = self.entries.len();
        let mut i: usize = 0;
        while i < n
            invariant
                i <= n,
                n == self.entries@.len(),
                *self == *old(self),
                old(self).wf(),
                forall|k: int| 0 <= k < i ==> (#[trigger] self.entries@[k]).0 != *a,
            decreases n - i,
        {
            if self.entries[i].0 == *a {
                let ghost s_before = self.entries@;
                proof {
                    assert(s_before == old(self).entries@);
                    assert(s_before[i as int].0 == *a);
                    assert forall|k: int|
                        0 <= k < s_before.len() && k != i as int implies (
                    #[trigger] s_before[k]).0 != *a by {
                        if k > i as int {
                            assert(old(self).entries@[i as int].0 != old(self).entries@[k].0);
                        }
                    }
                }
                let e = &mut self.entries[i];
                *e = (*a, v);
                proof {
                    assert(self.entries@ =~= s_before.update(i as int, (*a, v)));
                    assert forall|b: Address| true implies spec_find(
                        self.entries@,
                        b,
                    ) == if *a == b {
                        u256_val(v)
                    } else {
                        spec_find(s_before, b)
                    } by {
                        lemma_find_update(s_before, i as int, (*a, v), b);
                    }
                    assert forall|x: int, y: int|
                        0 <= x < y < self.entries@.len() implies (
                    #[trigger] self.entries@[x]).0 != (#[trigger] self.entries@[y]).0 by {
                        assert(old(self).entries@[x].0 != old(self).entries@[y].0);
                        assert(self.entries@[x].0 == s_before[x].0);
                        assert(self.entries@[y].0 == s_before[y].0);
                    }
                }
                return ;
            }
            i = i + 1;
        }
        let ghost s_before = self.entries@;
        proof {
            lemma_has_addr_index(s_before, *a);
            assert(!has_addr(s_before, *a));
        }
        self.entries.push((*a, v));
        proof {
            assert forall|b: Address| true implies spec_find(self.entries@, b) == if *a == b {
                u256_val(v)
            } else {
                spec_find(s_before, b)
            } by {
                lemma_find_push(s_before, (*a, v), b);
                if b != *a && !has_addr(s_before, b) {
                    lemma_find_absent(s_before, b);
                }
            }
            assert forall|x: int, y: int|
                0 <= x < y < self.entries@.len() implies (#[trigger] self.entries@[x]).0 != (
            #[trigger] self.entries@[y]).0 by {
                if y == self.entries@.len() - 1 {
                    assert(self.entries@[x] == s_before[x]);
                } else {
                    assert(s_before[x].0 != s_before[y].0);
                }
            }
        }
    }

    /// Increases the balance of `a` by `amount`; fails, changing nothing,
    /// exactly when the new balance would not fit in 256 bits.
    pub fn credit(&mut self, a: &Address, amount: &U256) -> (r: Result<(), ()>)
        requires
            old(self).wf(),
        ensures
            final(self).wf(),
            match r {
                Ok(()) => old(self).bal(*a) + u256_val(*amount) < pow256(32) && final(self).bal(*a)
                    == old(self).bal(*a) + u256_val(*amount) && (forall|b: Address|
                    b != *a ==> final(self).bal(b) == old(self).bal(b)),
                Err(()) => old(self).bal(*a) + u256_val(*amount) >= pow256(32) && *final(self)
                    == *old(self),
            },
    {
        let cur = self.balance_of(a);
        match cur.checked_add(amount) {
            Some(nv) => {
                proof {
                    crate::u256::lemma_u256_val_bound(nv);
                }
                self.set_balance(a, nv);
                Ok(())
            },
            None => Err(()),
        }
    }
}

} // verus!
