use vstd::prelude::*;

verus! {

/// First-match lookup in an association sequence: the value paired with the
/// first occurrence of `k`, or `None`.
pub open spec fn lookup<K, V>(s: Seq<(K, V)>, k: K) -> Option<V>
    decreases s.len(),
{
    if s.len() == 0 {
        None
    } else if s[0].0 == k {
        Some(s[0].1)
    } else {
        lookup(s.skip(1), k)
    }
}

/// Appending an entry changes only the lookup of its own key, and that only
/// when the key was absent.
pub proof fn lemma_lookup_push<K, V>(s: Seq<(K, V)>, e: (K, V), k: K)
    ensures
        lookup(s.push(e), k) == if lookup(s, k) is Some {
            lookup(s, k)
        } else if e.0 == k {
            Some(e.1)
        } else {
            None::<V>
        },
    decreases s.len(),
{
    if s.len() == 0 {
        assert(s.push(e)[0] == e);
        assert(s.push(e).skip(1) =~= Seq::<(K, V)>::empty());
        assert(lookup(s, k) == None::<V>);
        assert(lookup(s.push(e).skip(1), k) == None::<V>);
    } else {
        assert(s.push(e).skip(1) =~= s.skip(1).push(e));
        assert(s.push(e)[0] == s[0]);
        lemma_lookup_push(s.skip(1), e, k);
    }
}

} // verus!
