//! Multiset facts about sequence edits, shared by the verified sorts.

use vstd::prelude::*;

verus! {

/// Inserting an element anywhere in a sequence inserts it once into the
/// sequence's multiset.
pub proof fn lemma_to_multiset_insert<A>(s: Seq<A>, i: int, x: A)
    requires
        0 <= i <= s.len(),
    ensures
        s.insert(i, x).to_multiset() == s.to_multiset().insert(x),
{
    broadcast use vstd::seq_lib::group_to_multiset_ensures;
    broadcast use vstd::multiset::group_multiset_axioms;

    let t = s.insert(i, x);
    s.insert_ensures(i, x);
    assert(t.remove(i) =~= s);
    assert(t[i] == x);
    assert(t.remove(i).to_multiset() =~= t.to_multiset().remove(t[i]));
    assert(t.contains(x));
    assert(t.to_multiset().count(x) > 0);
    assert forall|y: A| s.to_multiset().insert(x).count(y) == t.to_multiset().count(y) by {
        assert(s.to_multiset().count(y) == t.to_multiset().remove(x).count(y));
    }
    assert(s.to_multiset().insert(x) =~= t.to_multiset());
}

/// Popping the last element of a sequence removes it once from the
/// sequence's multiset.
pub proof fn lemma_to_multiset_pop<A>(s: Seq<A>)
    requires
        s.len() > 0,
    ensures
        s.to_multiset() == s.drop_last().to_multiset().insert(s.last()),
{
    broadcast use vstd::seq_lib::group_to_multiset_ensures;

    assert(s.drop_last().push(s.last()) =~= s);
}

} // verus!
