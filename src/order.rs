use vstd::prelude::*;
use vstd::relations::{sorted_by, total_ordering};
use vstd::seq_lib::*;

verus! {

/// The order in which ids are listed.
pub open spec fn id_leq(a: u32, b: u32) -> bool {
    a <= b
}

/// `ids` in ascending order.
pub open spec fn ascending(ids: Seq<u32>) -> Seq<u32> {
    ids.sort_by(|a: u32, b: u32| id_leq(a, b))
}

proof fn lemma_id_leq_total()
    ensures
        total_ordering(|a: u32, b: u32| id_leq(a, b)),
{
}

/// Sorts ids in ascending order.
pub fn sort_ids(ids: &Vec<u32>) -> (r: Vec<u32>)
    ensures
        r@ == ascending(ids@),
{
    let mut out: Vec<u32> = Vec::new();
    let mut i: usize = 0;
    proof {
        broadcast use group_to_multiset_ensures;

        assert(ids@.take(0) =~= Seq::<u32>::empty());
        assert(out@ =~= Seq::<u32>::empty());
    }
    while i < ids.len()
        invariant
            i <= ids.len(),
            forall|a: int, b: int| 0 <= a < b < out@.len() ==> out@[a] <= out@[b],
            out@.to_multiset() == ids@.take(i as int).to_multiset(),
        decreases ids.len() - i,
    {
        let x = ids[i];
        let mut p: usize = 0;
        while p < out.len() && out[p] <= x
            invariant
                p <= out.len(),
                forall|k: int| 0 <= k < p ==> out@[k] <= x,
            decreases out.len() - p,
        {
            p = p + 1;
        }
        proof {
            assert(forall|k: int| p <= k < out@.len() ==> x < out@[k]) by {
                if p < out@.len() {
                    assert(x < out@[p as int]);
                    assert forall|k: int| p <= k < out@.len() implies x < out@[k] by {
                        if k > p {
                            assert(out@[p as int] <= out@[k]);
                        }
                    }
                }
            }
            to_multiset_insert(out@, p as int, x);
            assert(ids@.take(i as int + 1) =~= ids@.take(i as int).push(x));
            to_multiset_build(ids@.take(i as int), x);
        }
        let ghost before = out@;
        out.insert(p, x);
        proof {
            assert(out@ == before.insert(p as int, x));
            assert forall|a: int, b: int| 0 <= a < b < out@.len() implies out@[a] <= out@[b] by {
                if b < p {
                    assert(before[a] <= before[b]);
                } else if a > p {
                    assert(before[a - 1] <= before[b - 1]);
                } else if a == p {
                } else if b == p {
                    assert(out@[b] == x);
                } else {
                    assert(out@[b] == before[b - 1]);
                    assert(x < before[b - 1]);
                }
            }
        }
        i = i + 1;
    }
    proof {
        assert(ids@.take(i as int) =~= ids@);
        assert(sorted_by(out@, |a: u32, b: u32| id_leq(a, b)));
        lemma_id_leq_total();
        ids@.lemma_sort_by_ensures(|a: u32, b: u32| id_leq(a, b));
        lemma_sorted_unique(out@, ascending(ids@), |a: u32, b: u32| id_leq(a, b));
    }
    out
}

} // verus!
