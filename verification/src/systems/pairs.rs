//! Unordered pairs of entity indices.
use vstd::prelude::*;
use std::collections::HashSet;

verus! {

/// The pair of `a` and `b`, smaller index first.
pub open spec fn ordered(a: int, b: int) -> (int, int) {
    if a < b {
        (a, b)
    } else {
        (b, a)
    }
}

/// Whether both members of a pair are indices that a machine can hold.
pub open spec fn is_index_pair(pair: (int, int)) -> bool {
    0 <= pair.0 <= 0xffff_ffff_ffff_ffff && 0 <= pair.1 <= 0xffff_ffff_ffff_ffff
}

/// The number that stands for an ordered pair in the set.
pub open spec fn pair_key(pair: (int, int)) -> int {
    pair.0 * 0x1_0000_0000_0000_0000 + pair.1
}

/// Different pairs have different keys, and every key fits in 128 bits.
pub proof fn lemma_pair_key_injective(p: (int, int), q: (int, int))
    requires
        is_index_pair(p),
        is_index_pair(q),
    ensures
        pair_key(p) == pair_key(q) <==> p == q,
        0 <= pair_key(p) <= u128::MAX,
{
    assert(0 <= p.0 * 0x1_0000_0000_0000_0000 + p.1 <= u128::MAX) by (nonlinear_arith)
        requires
            0 <= p.0 <= 0xffff_ffff_ffff_ffff,
            0 <= p.1 <= 0xffff_ffff_ffff_ffff,
    ;
    if pair_key(p) == pair_key(q) {
        assert(p.0 == q.0 && p.1 == q.1) by (nonlinear_arith)
            requires
                p.0 * 0x1_0000_0000_0000_0000 + p.1 == q.0 * 0x1_0000_0000_0000_0000 + q.1,
                0 <= p.1 <= 0xffff_ffff_ffff_ffff,
                0 <= q.1 <= 0xffff_ffff_ffff_ffff,
        ;
    }
}

/// A set of unordered pairs of indices.
pub struct PairSet {
    keys: HashSet<u128>,
}

impl View for PairSet {
    type V = Set<(int, int)>;

    /// The pairs in the set, each with its smaller index first.
    closed spec fn view(&self) -> Set<(int, int)> {
        Set::new(
            |pair: (int, int)| is_index_pair(pair) && self.keys@.contains(pair_key(pair) as u128),
        )
    }
}

fn key_of(a: usize, b: usize) -> (key: u128)
    ensures
        key == pair_key(ordered(a as int, b as int)),
{
    let lo: u128 = if a < b {
        a as u128
    } else {
        b as u128
    };
    let hi: u128 = if a < b {
        b as u128
    } else {
        a as u128
    };
    assert(lo * 0x1_0000_0000_0000_0000 + hi <= u128::MAX) by (nonlinear_arith)
        requires
            0 <= lo <= 0xffff_ffff_ffff_ffff,
            0 <= hi <= 0xffff_ffff_ffff_ffff,
    ;
    lo * 0x1_0000_0000_0000_0000 + hi
}

impl PairSet {
    pub fn new() -> (set: PairSet)
        ensures
            set@ == Set::<(int, int)>::empty(),
    {
        let set = PairSet { keys: HashSet::new() };
        assert(set@ =~= Set::<(int, int)>::empty());
        set
    }

    /// Whether the pair of `a` and `b`, in either order, is in the set.
    pub fn contains(&self, a: usize, b: usize) -> (found: bool)
        ensures
            found == self@.contains(ordered(a as int, b as int)),
    {
        let key: u128 = key_of(a, b);
        self.keys.contains(&key)
    }

    /// Adds the pair of `a` and `b`; their order does not matter.
    pub fn insert(&mut self, a: usize, b: usize)
        ensures
            final(self)@ == old(self)@.insert(ordered(a as int, b as int)),
    {
        let key: u128 = key_of(a, b);
        self.keys.insert(key);
        proof {
            let added = ordered(a as int, b as int);
            assert forall|pair: (int, int)|
                final(self)@.contains(pair) == old(self)@.insert(added).contains(pair) by {
                if is_index_pair(pair) {
                    lemma_pair_key_injective(pair, added);
                }
            }
            assert(final(self)@ =~= old(self)@.insert(added));
        }
    }

    pub fn clear(&mut self)
        ensures
            final(self)@ == Set::<(int, int)>::empty(),
    {
        self.keys.clear();
        assert(final(self)@ =~= Set::<(int, int)>::empty());
    }
}

} // verus!
