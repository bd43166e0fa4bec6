//! Sorting records by a key, as the snapshot lists are sorted.
use vstd::multiset::Multiset;
use vstd::prelude::*;

verus! {

broadcast use vstd::seq_lib::group_to_multiset_ensures;

/// A total preorder on records, with a check for it.
pub trait KeyOrder: Sized {
    /// `self` sorts no later than `other`.
    spec fn key_le(&self, other: &Self) -> bool;

    /// Checks `key_le`.
    fn sorts_before(&self, other: &Self) -> (r: bool)
        ensures
            r == self.key_le(other),
    ;

    proof fn lemma_key_total(a: &Self, b: &Self)
        ensures
            a.key_le(b) || b.key_le(a),
    ;

    proof fn lemma_key_trans(a: &Self, b: &Self, c: &Self)
        requires
            a.key_le(b),
            b.key_le(c),
        ensures
            a.key_le(c),
    ;
}

/// Every record sorts no later than every record after it.
pub open spec fn sorted_by_key<T: KeyOrder>(s: Seq<T>) -> bool {
    forall|i: int, j: int| #![trigger s[i], s[j]] 0 <= i < j < s.len() ==> s[i].key_le(&s[j])
}

/// The position of the first least record of `v`.
fn least_index<T: KeyOrder>(v: &Vec<T>) -> (r: usize)
    requires
        v@.len() > 0,
    ensures
        r < v@.len(),
        forall|k: int| 0 <= k < v@.len() ==> v@[r as int].key_le(&v@[k]),
{
    let mut best: usize = 0;
    let mut i: usize = 1;
    proof {
        T::lemma_key_total(&v@[0], &v@[0]);
    }
    while i < v.len()
        invariant
            0 < i <= v@.len(),
            best < i,
            forall|k: int| 0 <= k < i ==> v@[best as int].key_le(&v@[k]),
        decreases v.len() - i,
    {
        if !v[best].sorts_before(&v[i]) {
            proof {
                T::lemma_key_total(&v@[best as int], &v@[i as int]);
                assert forall|k: int| 0 <= k < i + 1 implies v@[i as int].key_le(&v@[k]) by {
                    if k < i {
                        T::lemma_key_trans(&v@[i as int], &v@[best as int], &v@[k]);
                    } else {
                        T::lemma_key_total(&v@[k], &v@[k]);
                    }
                }
            }
            best = i;
        }
        i = i + 1;
    }
    best
}

/// The records of `v` in key order.
pub fn sort_by_key<T: KeyOrder>(v: Vec<T>) -> (r: Vec<T>)
    ensures
        sorted_by_key(r@),
        r@.to_multiset() == v@.to_multiset(),
{
    let mut rest = v;
    let mut out: Vec<T> = Vec::new();
    assert(out@.to_multiset().add(rest@.to_multiset()) =~= v@.to_multiset());
    while rest.len() > 0
        invariant
            sorted_by_key(out@),
            out@.to_multiset().add(rest@.to_multiset()) == v@.to_multiset(),
            forall|a: int, b: int| #![trigger out@[a], rest@[b]] 0 <= a < out@.len() && 0 <= b < rest@.len() ==> out@[a].key_le(&rest@[b]),
        decreases rest.len(),
    {
        let k = least_index(&rest);
        let ghost before_rest = rest@;
        let ghost before_out = out@;
        let x = rest.remove(k);
        out.push(x);
        proof {
            assert(rest@ == before_rest.remove(k as int));
            assert(out@ == before_out.push(x));
            assert(out@.to_multiset().add(rest@.to_multiset()) =~= v@.to_multiset());
            assert forall|a: int, b: int| #![trigger out@[a], rest@[b]] 0 <= a < out@.len() && 0 <= b < rest@.len() implies out@[a].key_le(&rest@[b]) by {
                let bb = if b < k { b } else { b + 1 };
                assert(rest@[b] == before_rest[bb]);
                if a < before_out.len() {
                    assert(out@[a] == before_out[a]);
                } else {
                    assert(out@[a] == before_rest[k as int]);
                }
            }
            assert forall|a: int, b: int| #![trigger out@[a], out@[b]] 0 <= a < b < out@.len() implies out@[a].key_le(&out@[b]) by {
                if b == before_out.len() {
                    assert(out@[b] == before_rest[k as int]);
                    assert(out@[a] == before_out[a]);
                } else {
                    assert(out@[a] == before_out[a] && out@[b] == before_out[b]);
                }
            }
        }
    }
    assert(rest@.to_multiset() =~= Multiset::empty());
    assert(out@.to_multiset() =~= v@.to_multiset());
    out
}

} // verus!
