//! 32-byte account addresses, ordered as their raw bytes are.
use vstd::prelude::*;
use vstd::relations::total_ordering;
use vstd::multiset::Multiset;

verus! {

/// An account address, held as its 32 bytes read big-endian into two 128-bit halves, so that the
/// order of `(hi, lo)` is the order of the raw bytes.
#[derive(Clone, Copy, Debug, PartialEq, Eq, Structural)]
pub struct Pubkey {
    pub hi: u128,
    pub lo: u128,
}

/// `a` is at or above `b` in raw-byte order.
pub open spec fn key_ge(a: Pubkey, b: Pubkey) -> bool {
    a.hi > b.hi || (a.hi == b.hi && a.lo >= b.lo)
}

/// Descending raw-byte order, as a relation for sorting.
pub open spec fn descending() -> spec_fn(Pubkey, Pubkey) -> bool {
    |a: Pubkey, b: Pubkey| key_ge(a, b)
}

pub proof fn lemma_descending_total()
    ensures
        total_ordering(descending()),
{
}

impl Pubkey {
    /// The all-zero address (Rust's `Pubkey::default()`).
    pub fn default_key() -> (r: Pubkey)
        ensures
            r.hi == 0 && r.lo == 0,
    {
        Pubkey { hi: 0, lo: 0 }
    }

    pub fn is_default(&self) -> (r: bool)
        ensures
            r == (self.hi == 0 && self.lo == 0),
    {
        self.hi == 0 && self.lo == 0
    }

    /// Whether `self` is at or above `other` in raw-byte order.
    pub fn ge(&self, other: &Pubkey) -> (r: bool)
        ensures
            r == key_ge(*self, *other),
    {
        self.hi > other.hi || (self.hi == other.hi && self.lo >= other.lo)
    }
}

/// Whether `v` holds `k`.
pub fn contains_key(v: &Vec<Pubkey>, k: &Pubkey) -> (r: bool)
    ensures
        r == v@.contains(*k),
{
    let mut i: usize = 0;
    while i < v.len()
        invariant
            i <= v.len(),
            forall|j: int| 0 <= j < i ==> v@[j] != *k,
        decreases v.len() - i,
    {
        if v[i] == *k {
            assert(v@[i as int] == *k);
            return true;
        }
        i = i + 1;
    }
    false
}

/// `v` sorted in descending raw-byte order (a selection sort).
pub fn sort_descending(v: Vec<Pubkey>) -> (r: Vec<Pubkey>)
    ensures
        r@ == v@.sort_by(descending()),
{
    broadcast use vstd::seq_lib::group_to_multiset_ensures;

    let ghost orig = v@;
    let mut rest = v;
    let mut out: Vec<Pubkey> = Vec::new();
    while rest.len() > 0
        invariant
            out@.to_multiset().add(rest@.to_multiset()) == orig.to_multiset(),
            vstd::relations::sorted_by(out@, descending()),
            forall|i: int, j: int|
                0 <= i < out@.len() && 0 <= j < rest@.len() ==> key_ge(out@[i], rest@[j]),
        decreases rest.len(),
    {
        let mut m: usize = 0;
        let mut k: usize = 1;
        while k < rest.len()
            invariant
                0 < rest.len(),
                m < rest.len(),
                1 <= k <= rest.len(),
                forall|j: int| 0 <= j < k ==> key_ge(rest@[m as int], rest@[j]),
            decreases rest.len() - k,
        {
            if rest[k].hi > rest[m].hi || (rest[k].hi == rest[m].hi && rest[k].lo > rest[m].lo) {
                m = k;
            }
            k = k + 1;
        }
        let ghost old_rest = rest@;
        let ghost old_out = out@;
        let x = rest.remove(m);
        out.push(x);
        proof {
            assert(old_rest.remove(m as int) == rest@);
            vstd::seq_lib::to_multiset_remove(old_rest, m as int);
            assert(out@ == old_out.push(x));
            vstd::seq_lib::to_multiset_build(old_out, x);
            assert(rest@.to_multiset() == old_rest.to_multiset().remove(x));
            assert(out@.to_multiset() == old_out.to_multiset().insert(x));
            assert(old_rest[m as int] == x);
            assert(old_rest.contains(x));
            old_rest.to_multiset_ensures();
            assert(old_rest.to_multiset().count(x) > 0);
            assert(out@.to_multiset().add(rest@.to_multiset()) =~= orig.to_multiset());
            assert forall|i: int, j: int|
                0 <= i < out@.len() && 0 <= j < rest@.len() implies key_ge(out@[i], rest@[j]) by {
                if j < m {
                    assert(rest@[j] == old_rest[j]);
                } else {
                    assert(rest@[j] == old_rest[j + 1]);
                }
            }
            assert forall|i: int, j: int|
                0 <= i < j < out@.len() implies #[trigger] descending()(out@[i], out@[j]) by {
                if j == out@.len() - 1 {
                    assert(out@[j] == old_rest[m as int]);
                }
            }
        }
    }
    proof {
        assert(rest@.to_multiset() =~= Multiset::empty());
        assert(out@.to_multiset() =~= orig.to_multiset());
        lemma_descending_total();
        orig.lemma_sort_by_ensures(descending());
        vstd::seq_lib::lemma_sorted_unique(out@, orig.sort_by(descending()), descending());
    }
    out
}

} // verus!
