use vstd::prelude::*;
use vstd::relations::{sorted_by, total_ordering};

verus! {

/// The order of `i32` values.
pub open spec fn value_le() -> spec_fn(i32, i32) -> bool {
    |a: i32, b: i32| a <= b
}

proof fn lemma_value_le_total()
    ensures
        total_ordering(value_le()),
{
    let le = value_le();
    assert(vstd::relations::reflexive(le));
    assert(vstd::relations::antisymmetric(le));
    assert(vstd::relations::transitive(le));
    assert(vstd::relations::strongly_connected(le));
}

/// The values in increasing order.
fn sorted_values(data: &[i32]) -> (v: Vec<i32>)
    ensures
        sorted_by(v@, value_le()),
        v@.to_multiset() == data@.to_multiset(),
{
    broadcast use vstd::seq_lib::group_to_multiset_ensures;
    broadcast use vstd::multiset::group_multiset_axioms;

    let mut v: Vec<i32> = Vec::new();
    let mut i: usize = 0;
    proof {
        assert(data@.take(0) =~= Seq::<i32>::empty());
    }
    while i < data.len()
        invariant
            i <= data.len(),
            sorted_by(v@, value_le()),
            v@.to_multiset() == data@.take(i as int).to_multiset(),
        decreases data.len() - i,
    {
        let x = data[i];
        let mut pos: usize = 0;
        while pos < v.len() && v[pos] <= x
            invariant
                pos <= v.len(),
                forall|k: int| 0 <= k < pos ==> v@[k] <= x,
            decreases v.len() - pos,
        {
            pos += 1;
        }
        let ghost old_v = v@;
        v.insert(pos, x);
        proof {
            broadcast use vstd::multiset::group_multiset_axioms;

            v@.to_multiset_ensures();
            old_v.to_multiset_ensures();
            data@.take(i as int).to_multiset_ensures();
            assert(v@.remove(pos as int) =~= old_v);
            assert(v@[pos as int] == x);
            assert(v@.to_multiset() =~= old_v.to_multiset().insert(x)) by {
                assert(v@.remove(pos as int).to_multiset() =~= v@.to_multiset().remove(x));
                assert(v@.to_multiset().contains(x));
            }
            assert(data@.take(i + 1) =~= data@.take(i as int).push(x));
            assert forall|a: int, b: int| 0 <= a < b < v@.len() implies #[trigger] value_le()(
                v@[a],
                v@[b],
            ) by {
                if b < pos {
                    assert(value_le()(old_v[a], old_v[b]));
                } else if b == pos {
                    assert(old_v[a] <= x);
                } else if a < pos {
                    assert(v@[a] <= x);
                    if b - 1 > pos {
                        assert(value_le()(old_v[pos as int], old_v[b - 1]));
                    }
                } else if a == pos {
                    if b - 1 > pos {
                        assert(value_le()(old_v[pos as int], old_v[b - 1]));
                    }
                } else {
                    assert(value_le()(old_v[a - 1], old_v[b - 1]));
                }
            }
        }
        i += 1;
    }
    proof {
        assert(data@.take(data.len() as int) =~= data@);
    }
    v
}

/// The value at `p` percent of the values in increasing order (the largest for
/// 100 percent and more); 0 for no values.
pub open spec fn percentile_value(data: Seq<i32>, p: int) -> i32 {
    if data.len() == 0 {
        0
    } else {
        let s = data.sort_by(value_le());
        let idx = data.len() * p / 100;
        s[if idx < data.len() - 1 {
            idx
        } else {
            data.len() - 1
        }]
    }
}

pub fn percentile(data: &[i32], p: usize) -> (r: i32)
    requires
        data@.len() * p <= usize::MAX,
    ensures
        r == percentile_value(data@, p as int),
{
    if data.len() == 0 {
        return 0;
    }
    let v = sorted_values(data);
    proof {
        lemma_value_le_total();
        data@.lemma_sort_by_ensures(value_le());
        vstd::seq_lib::lemma_sorted_unique(v@, data@.sort_by(value_le()), value_le());
        v@.to_multiset_ensures();
        data@.to_multiset_ensures();
        assert(v@.len() == data@.len());
    }
    let idx = v.len() * p / 100;
    let idx = if idx < v.len() - 1 {
        idx
    } else {
        v.len() - 1
    };
    v[idx]
}

} // verus!
