//! Maps keyed by identifiers: their keys and the sums of their values.
use std::collections::HashMap;
use vstd::prelude::*;

verus! {

broadcast use vstd::std_specs::hash::group_hash_axioms;

/// The keys of a map, each once, in no particular order.
pub fn keys_of<V>(m: &HashMap<u128, V>) -> (r: Vec<u128>)
    ensures
        r@.no_duplicates(),
        r@.len() == m@.len(),
        forall|k: u128| #[trigger] m@.contains_key(k) == r@.contains(k),
{
    let mut out: Vec<u128> = Vec::new();
    let ghost all = vstd::std_specs::iter::IteratorSpec::remaining(
        &vstd::std_specs::hash::spec_hash_map_iter(m),
    );
    for (k, v) in iter: m.iter()
        invariant
            iter.seq() == all,
            all.no_duplicates(),
            out@.len() == iter.index(),
            forall|i: int| 0 <= i < out@.len() ==> (#[trigger] out@[i]) == *all[i].0,
    {
        out.push(*k);
    }
    proof {
        assert forall|k: u128| #[trigger] m@.contains_key(k) == out@.contains(k) by {
            if m@.contains_key(k) {
                assert(all.contains((&k, &m@[k])));
                let i = choose|i: int| 0 <= i < all.len() && all[i] == (&k, &m@[k]);
                assert(out@[i] == k);
            }
            if out@.contains(k) {
                let i = choose|i: int| 0 <= i < out@.len() && out@[i] == k;
                assert(m@.contains_key(*all[i].0));
            }
        }
        assert forall|i: int, j: int| 0 <= i < j < out@.len() implies out@[i] != out@[j] by {
            assert(m@.contains_key(*all[i].0) && m@[*all[i].0] == *all[i].1);
            assert(m@.contains_key(*all[j].0) && m@[*all[j].0] == *all[j].1);
            if out@[i] == out@[j] {
                assert(all[i] == all[j]);
            }
        }
    }
    out
}

/// The sum of the values of a finite map.
pub open spec fn sum_of(m: Map<u128, u64>) -> nat
    decreases m.dom().len(),
    when m.dom().finite()
{
    if m.dom().len() == 0 {
        0
    } else {
        let k = m.dom().choose();
        m[k] as nat + sum_of(m.remove(k))
    }
}

/// Any entry can be counted first.
pub proof fn sum_without(m: Map<u128, u64>, k: u128)
    requires
        m.dom().finite(),
        m.contains_key(k),
    ensures
        sum_of(m) == m[k] as nat + sum_of(m.remove(k)),
    decreases m.dom().len(),
{
    let c = m.dom().choose();
    assert(m.dom().contains(c)) by {
        assert(m.dom().contains(k));
    }
    assert(m.dom().len() > 0) by {
        vstd::set_lib::lemma_set_empty_equivalency_len(m.dom());
    }
    assert(sum_of(m) == m[c] as nat + sum_of(m.remove(c)));
    if c != k {
        sum_without(m.remove(c), k);
        sum_without(m.remove(k), c);
        assert(m.remove(c).remove(k) =~= m.remove(k).remove(c));
    }
}

} // verus!
