//! Walking a map of numbered files in increasing order of the numbers.
use vstd::prelude::*;
use std::collections::BTreeMap;
use vstd::std_specs::iter::IteratorSpec;
use vstd::std_specs::cmp::OrdSpec;
use crate::filename_handling::string_map_view;

verus! {

/// `entries` lists the map `m` in increasing key order: each entry is one of
/// `m`'s keys with its value, the keys strictly increase, and no key of `m`
/// is left out.
pub open spec fn lists_in_order(entries: Seq<(u32, Seq<char>)>, m: Map<u32, Seq<char>>) -> bool {
    &&& m.dom().finite()
    &&& entries.len() == m.dom().len()
    &&& forall|i: int, j: int| 0 <= i < j < entries.len() ==> entries[i].0 < entries[j].0
    &&& forall|i: int| 0 <= i < entries.len() ==> m.contains_key(#[trigger] entries[i].0) && m[entries[i].0] == entries[i].1
    &&& forall|k: u32| m.contains_key(k) ==> exists|i: int| 0 <= i < entries.len() && #[trigger] entries[i].0 == k
}

/// The entries of `m` in increasing key order. A finite map has exactly
/// one such listing (`lemma_listing_unique`).
pub open spec fn in_key_order(m: Map<u32, Seq<char>>) -> Seq<(u32, Seq<char>)> {
    choose|s: Seq<(u32, Seq<char>)>| lists_in_order(s, m)
}

/// Two listings of the same map in increasing key order are equal.
pub proof fn lemma_listing_unique(s1: Seq<(u32, Seq<char>)>, s2: Seq<(u32, Seq<char>)>, m: Map<u32, Seq<char>>)
    requires
        lists_in_order(s1, m),
        lists_in_order(s2, m),
    ensures
        s1 == s2,
    decreases s1.len(),
{
    if s1.len() == 0 {
        assert(s1 =~= s2);
    } else {
        let k1 = s1[0].0;
        let k2 = s2[0].0;
        assert(m.contains_key(k1));
        let j = choose|i: int| 0 <= i < s2.len() && #[trigger] s2[i].0 == k1;
        assert(s2[0].0 <= s2[j].0);
        assert(m.contains_key(s2[0].0));
        let j1 = choose|i: int| 0 <= i < s1.len() && #[trigger] s1[i].0 == k2;
        assert(s1[0].0 <= s1[j1].0);
        assert(k1 == k2);
        let m1 = m.remove(k1);
        let t1 = s1.drop_first();
        let t2 = s2.drop_first();
        assert(m1.dom() =~= m.dom().remove(k1));
        assert forall|k: u32| m1.contains_key(k) implies exists|i: int| 0 <= i < t1.len() && #[trigger] t1[i].0 == k by {
            let i = choose|i: int| 0 <= i < s1.len() && #[trigger] s1[i].0 == k;
            assert(i != 0);
            assert(t1[i - 1].0 == k);
        }
        assert forall|k: u32| m1.contains_key(k) implies exists|i: int| 0 <= i < t2.len() && #[trigger] t2[i].0 == k by {
            let i = choose|i: int| 0 <= i < s2.len() && #[trigger] s2[i].0 == k;
            assert(i != 0);
            assert(t2[i - 1].0 == k);
        }
        assert forall|i: int| 0 <= i < t1.len() implies m1.contains_key(#[trigger] t1[i].0) && m1[t1[i].0] == t1[i].1 by {
            assert(s1[0].0 < s1[i + 1].0);
        }
        assert forall|i: int| 0 <= i < t2.len() implies m1.contains_key(#[trigger] t2[i].0) && m1[t2[i].0] == t2[i].1 by {
            assert(s2[0].0 < s2[i + 1].0);
        }
        assert(lists_in_order(t1, m1));
        assert(lists_in_order(t2, m1));
        lemma_listing_unique(t1, t2, m1);
        assert(s1 =~= s2) by {
            assert forall|i: int| 0 <= i < s1.len() implies s1[i] == s2[i] by {
                if i > 0 {
                    assert(s1[i] == t1[i - 1]);
                    assert(s2[i] == t2[i - 1]);
                }
            }
        }
    }
}

/// The views of a list of numbered strings.
pub open spec fn entries_view(v: Seq<(u32, String)>) -> Seq<(u32, Seq<char>)> {
    v.map_values(|e: (u32, String)| (e.0, e.1@))
}

/// The entries of `m`, in increasing key order.
pub fn entries_in_order(m: &BTreeMap<u32, String>) -> (r: Vec<(u32, String)>)
    ensures
        lists_in_order(entries_view(r@), string_map_view(m@)),
        entries_view(r@) == in_key_order(string_map_view(m@)),
{
    broadcast use vstd::std_specs::btree::group_btree_axioms;
    broadcast use vstd::laws_cmp::group_laws_cmp;
    let iter = m.iter();
    let ghost items = iter.remaining();
    let ghost keys = items.map_values(|kv: (&u32, &String)| *kv.0);
    proof {
        assert(vstd::laws_cmp::obeys_cmp::<u32>());
        assert(vstd::std_specs::btree::increasing_seq(keys));
        assert(vstd::std_specs::btree::spec_btree_map_iter(m).remaining() == items);
    }
    let mut r: Vec<(u32, String)> = Vec::new();
    for kv in it: iter
        invariant
            r@.len() == it.index(),
            it.seq() == items,
            forall|i: int| 0 <= i < it.index() ==> r@[i].0 == *items[i].0 && r@[i].1@ == (*items[i].1)@,
    {
        let (k, v) = kv;
        r.push((*k, v.clone()));
    }
    let ghost e = entries_view(r@);
    let ghost mv = string_map_view(m@);
    assert forall|i: int, j: int| 0 <= i < j < e.len() implies e[i].0 < e[j].0 by {
        assert(keys[i] == e[i].0 && keys[j] == e[j].0);
        assert(keys[i].cmp_spec(&keys[j]) is Less);
    }
    assert forall|i: int| 0 <= i < e.len() implies mv.contains_key(#[trigger] e[i].0) && mv[e[i].0] == e[i].1 by {
        assert(m@.contains_key(*items[i].0));
    }
    assert forall|k: u32| mv.contains_key(k) implies exists|i: int| 0 <= i < e.len() && #[trigger] e[i].0 == k by {
        assert(items.contains((&k, &m@[k])));
        let i = choose|i: int| 0 <= i < items.len() && items[i] == (&k, &m@[k]);
        assert(e[i].0 == k);
    }
    assert(mv.dom() =~= m@.dom());
    assert(e.len() == mv.dom().len());
    assert(lists_in_order(e, mv));
    assert(exists|s: Seq<(u32, Seq<char>)>| lists_in_order(s, mv));
    proof {
        lemma_listing_unique(e, in_key_order(mv), mv);
    }
    r
}

} // verus!
