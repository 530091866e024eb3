use vstd::prelude::*;
use vstd::multiset::Multiset;
use vstd::seq_lib::{to_multiset_build, to_multiset_remove};

verus! {

/// Largest first: every earlier entry is at least as big as every later one.
pub open spec fn sorted_desc(s: Seq<u32>) -> bool {
    forall|i: int, j: int| 0 <= i < j < s.len() ==> s[i] >= s[j]
}

/// Reorders the requested target edges so the run processes them largest
/// first: the result is a permutation of the input sorted in descending
/// order, so each later (smaller) size can reuse the previous iteration's
/// already-shrunk raster.
pub fn sort_sizes_desc(sizes: &Vec<u32>) -> (r: Vec<u32>)
    ensures
        sorted_desc(r@),
        r@.to_multiset() == sizes@.to_multiset(),
        r@.len() == sizes@.len(),
{
    broadcast use vstd::seq_lib::group_to_multiset_ensures;
    broadcast use vstd::multiset::group_multiset_axioms;
    broadcast use vstd::multiset::lemma_multiset_empty_len;

    let mut rest: Vec<u32> = Vec::new();
    let mut i: usize = 0;
    while i < sizes.len()
        invariant
            i <= sizes@.len(),
            rest@ == sizes@.take(i as int),
        decreases sizes@.len() - i,
    {
        rest.push(sizes[i]);
        proof {
            assert(rest@ =~= sizes@.take(i + 1));
        }
        i += 1;
    }
    proof {
        assert(rest@ =~= sizes@);
    }
    let mut out: Vec<u32> = Vec::new();
    while rest.len() > 0
        invariant
            out@.to_multiset().add(rest@.to_multiset()) == sizes@.to_multiset(),
            out@.len() + rest@.len() == sizes@.len(),
            sorted_desc(out@),
            forall|a: int, b: int|
                0 <= a < out@.len() && 0 <= b < rest@.len() ==> out@[a] >= rest@[b],
        decreases rest@.len(),
    {
        let mut m: usize = 0;
        let mut k: usize = 1;
        while k < rest.len()
            invariant
                rest@.len() > 0,
                m < rest@.len(),
                k <= rest@.len(),
                forall|j: int| 0 <= j < k ==> rest@[m as int] >= rest@[j],
            decreases rest@.len() - k,
        {
            if rest[k] > rest[m] {
                m = k;
            }
            k += 1;
        }
        let ghost prev_out = out@;
        let ghost prev_rest = rest@;
        let v: u32 = rest.remove(m);
        out.push(v);
        proof {
            to_multiset_build(prev_out, v);
            to_multiset_remove(prev_rest, m as int);
            assert(out@ == prev_out.push(v));
            assert(rest@ == prev_rest.remove(m as int));
            prev_rest.to_multiset_ensures();
            assert(prev_rest[m as int] == v && 0 <= m < prev_rest.len());
            assert(prev_rest.contains(v));
            assert(prev_rest.to_multiset().count(v) >= 1);
            assert(out@.to_multiset().add(rest@.to_multiset()) =~= sizes@.to_multiset());
        }
    }
    proof {
        assert(rest@.to_multiset() =~= Multiset::empty());
        assert(out@.to_multiset() =~= sizes@.to_multiset());
    }
    out
}

} // verus!
