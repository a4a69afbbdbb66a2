//! Maps in the order of their keys.
//!
//! The snapshot keeps its cameras and streams in maps ordered by id. A
//! contract that speaks of "the cameras in the order of their ids" needs
//! that order as mathematics: the place of a key is the number of keys
//! below it.

use std::collections::BTreeMap;
use vstd::prelude::*;
use vstd::set_lib::lemma_len_subset;
use vstd::std_specs::cmp::OrdSpec;
use vstd::std_specs::iter::IteratorSpec;

verus! {

/// How many members of `keys` are smaller than `k`: the place of `k` among
/// them in ascending order.
pub open spec fn rank(keys: Set<i32>, k: i32) -> nat {
    keys.filter(|j: i32| j < k).len()
}

/// The member of `keys` that has exactly `i` smaller members.
pub open spec fn key_at(keys: Set<i32>, i: int) -> i32 {
    choose|k: i32| keys.contains(k) && rank(keys, k) == i
}

/// Each element is smaller than all that follow it.
pub open spec fn strictly_ascending(s: Seq<i32>) -> bool {
    forall|i: int, j: int| 0 <= i < j < s.len() ==> s[i] < s[j]
}

/// Of two keys, the smaller has the smaller place.
pub proof fn lemma_rank_strict(keys: Set<i32>, a: i32, b: i32)
    requires
        keys.finite(),
        keys.contains(a),
        keys.contains(b),
        a < b,
    ensures
        rank(keys, a) < rank(keys, b),
{
    let below_a = keys.filter(|j: i32| j < a);
    let below_b = keys.filter(|j: i32| j < b);
    keys.lemma_len_filter(|j: i32| j < a);
    keys.lemma_len_filter(|j: i32| j < b);
    assert(below_a.insert(a).subset_of(below_b));
    lemma_len_subset(below_a.insert(a), below_b);
}

/// The place of a key is smaller than the number of keys.
pub proof fn lemma_rank_in_range(keys: Set<i32>, k: i32)
    requires
        keys.finite(),
        keys.contains(k),
    ensures
        rank(keys, k) < keys.len(),
{
    let below = keys.filter(|j: i32| j < k);
    keys.lemma_len_filter(|j: i32| j < k);
    assert(below.insert(k).subset_of(keys));
    lemma_len_subset(below.insert(k), keys);
}

/// The key at the place of `k` is `k`.
pub proof fn lemma_key_at_rank(keys: Set<i32>, k: i32)
    requires
        keys.finite(),
        keys.contains(k),
    ensures
        key_at(keys, rank(keys, k) as int) == k,
{
    let found = key_at(keys, rank(keys, k) as int);
    assert(keys.contains(found) && rank(keys, found) == rank(keys, k));
    if found < k {
        lemma_rank_strict(keys, found, k);
    } else if k < found {
        lemma_rank_strict(keys, k, found);
    }
}

/// In a strictly ascending sequence of all the keys, each key stands at its
/// place.
pub proof fn lemma_rank_of_ascending(s: Seq<i32>, keys: Set<i32>, i: int)
    requires
        strictly_ascending(s),
        s.to_set() == keys,
        0 <= i < s.len(),
    ensures
        rank(keys, s[i]) == i,
{
    let prefix = s.subrange(0, i);
    assert(prefix.no_duplicates());
    prefix.unique_seq_to_set();
    assert(keys.filter(|j: i32| j < s[i]) =~= prefix.to_set()) by {
        assert forall|k: i32| keys.filter(|j: i32| j < s[i]).contains(k) implies prefix.to_set().contains(k) by {
            assert(s.to_set().contains(k));
            let n = choose|n: int| 0 <= n < s.len() && s[n] == k;
            assert(n < i);
            assert(prefix[n] == k);
        }
        assert forall|k: i32| prefix.to_set().contains(k) implies keys.filter(|j: i32| j < s[i]).contains(k) by {
            let n = choose|n: int| 0 <= n < prefix.len() && prefix[n] == k;
            assert(s[n] == k);
            assert(s.to_set().contains(k));
        }
    }
}

/// In a strictly ascending sequence of all the keys, the key at place `i` is
/// element `i`.
pub proof fn lemma_key_at_of_ascending(s: Seq<i32>, keys: Set<i32>, i: int)
    requires
        strictly_ascending(s),
        s.to_set() == keys,
        0 <= i < s.len(),
    ensures
        key_at(keys, i) == s[i],
{
    lemma_rank_of_ascending(s, keys, i);
    assert(s.to_set().contains(s[i]));
    let k = key_at(keys, i);
    assert(keys.contains(k) && rank(keys, k) == i);
    let n = choose|n: int| 0 <= n < s.len() && s[n] == k;
    lemma_rank_of_ascending(s, keys, n);
}

/// The entries of `m` in ascending order of their keys.
pub fn entries<'a, V>(m: &'a BTreeMap<i32, V>) -> (out: Vec<(i32, &'a V)>)
    ensures
        out@.len() == m@.dom().len(),
        forall|i: int| 0 <= i < out@.len() ==> {
            &&& (#[trigger] out@[i]).0 == key_at(m@.dom(), i)
            &&& m@.contains_key(out@[i].0)
            &&& *out@[i].1 == m@[out@[i].0]
        },
{
    broadcast use vstd::std_specs::btree::group_btree_axioms;
    broadcast use vstd::laws_cmp::group_laws_cmp;
    let mut out: Vec<(i32, &'a V)> = Vec::new();
    let it0 = m.iter();
    let ghost all = it0.remaining();
    let ghost keys = all.map_values(|kv: (&i32, &V)| *kv.0);
    proof {
        assert(vstd::std_specs::btree::key_obeys_cmp_spec::<i32>());
        assert(it0 == vstd::std_specs::btree::spec_btree_map_iter(m));
        assert(vstd::std_specs::btree::increasing_seq(keys));
        vstd::std_specs::btree::axiom_increasing_seq_meaning(keys);
        assert forall|i: int, j: int| 0 <= i < j < keys.len() implies keys[i] < keys[j] by {
            assert(keys[i].cmp_spec(&keys[j]) is Less);
        }
        assert(all.len() == m@.dom().len());
        assert(keys.to_set() =~= m@.dom()) by {
            assert forall|k: i32| keys.to_set().contains(k) implies m@.dom().contains(k) by {
                let n = choose|n: int| 0 <= n < keys.len() && keys[n] == k;
                assert(m@.contains_key(*all[n].0));
            }
            assert forall|k: i32| m@.dom().contains(k) implies keys.to_set().contains(k) by {
                assert(m@.contains_key(k));
                assert(all.contains((&k, &m@[k])));
                let n = choose|n: int| 0 <= n < all.len() && all[n] == (&k, &m@[k]);
                assert(keys[n] == k);
            }
        }
    }
    for kv in it: it0
        invariant
            it.seq() == all,
            out@.len() == it.index(),
            forall|i: int| 0 <= i < out@.len() ==> (#[trigger] out@[i]).0 == *all[i].0 && *out@[i].1 == *all[i].1,
    {
        out.push((*kv.0, kv.1));
    }
    proof {
        assert forall|i: int| 0 <= i < out@.len() implies {
            &&& (#[trigger] out@[i]).0 == key_at(m@.dom(), i)
            &&& m@.contains_key(out@[i].0)
            &&& *out@[i].1 == m@[out@[i].0]
        } by {
            lemma_key_at_of_ascending(keys, m@.dom(), i);
        }
    }
    out
}

} // verus!
