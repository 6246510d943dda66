//! Picking the clock that is free first.

use vstd::prelude::*;

verus! {

/// The machine values of `v` as mathematical integers.
pub open spec fn as_ints(v: Seq<u64>) -> Seq<int> {
    Seq::new(v.len(), |i: int| v[i] as int)
}

/// `i` is the position of the first smallest entry of `v`.
pub open spec fn is_first_min(v: Seq<int>, i: int) -> bool {
    &&& 0 <= i < v.len()
    &&& forall|j: int| 0 <= j < v.len() ==> v[i] <= v[j]
    &&& forall|j: int| 0 <= j < i ==> v[i] < v[j]
}

/// The position of the first smallest entry of `v`.
pub open spec fn first_min(v: Seq<int>) -> int {
    choose|i: int| is_first_min(v, i)
}

pub proof fn lemma_first_min_unique(v: Seq<int>, a: int, b: int)
    requires
        is_first_min(v, a),
        is_first_min(v, b),
    ensures
        a == b,
{
    if a < b {
        assert(v[b] < v[a]);
    } else if b < a {
        assert(v[a] < v[b]);
    }
}

pub proof fn lemma_first_min_is(v: Seq<int>, a: int)
    requires
        is_first_min(v, a),
    ensures
        first_min(v) == a,
{
    lemma_first_min_unique(v, a, first_min(v));
}

pub proof fn lemma_first_min_exists(v: Seq<int>)
    requires
        v.len() > 0,
    ensures
        is_first_min(v, first_min(v)),
    decreases v.len(),
{
    if v.len() == 1 {
        assert(is_first_min(v, 0));
    } else {
        let u = v.drop_last();
        lemma_first_min_exists(u);
        let k = first_min(u);
        assert(forall|j: int| 0 <= j < u.len() ==> u[j] == v[j]);
        if v.last() < v[k] {
            assert(is_first_min(v, v.len() - 1));
        } else {
            assert(is_first_min(v, k));
        }
    }
}

/// Index of the entry that becomes free first; ties go to the lowest index.
pub fn earliest(v: &Vec<u64>) -> (r: usize)
    requires
        v@.len() > 0,
    ensures
        is_first_min(as_ints(v@), r as int),
        r as int == first_min(as_ints(v@)),
{
    let mut best: usize = 0;
    let mut i: usize = 1;
    while i < v.len()
        invariant
            1 <= i <= v@.len(),
            best < i,
            forall|j: int| 0 <= j < i ==> v@[best as int] <= v@[j],
            forall|j: int| 0 <= j < best ==> v@[best as int] < v@[j],
        decreases v@.len() - i,
    {
        if v[i] < v[best] {
            best = i;
        }
        i = i + 1;
    }
    proof {
        lemma_first_min_is(as_ints(v@), best as int);
    }
    best
}

} // verus!
