//! Sequences of name/value pairs and the mappings they denote. Both the
//! session cookie mapping and the in-memory model of the credential store
//! are pair sequences underneath.

use vstd::prelude::*;

verus! {

/// The mapping a pair sequence denotes; a later pair of the same name
/// overrides an earlier one.
pub open spec fn mapping_of_pairs(ps: Seq<(Seq<char>, Seq<char>)>) -> Map<Seq<char>, Seq<char>>
    decreases ps.len(),
{
    if ps.len() == 0 {
        Map::empty()
    } else {
        mapping_of_pairs(ps.drop_last()).insert(ps.last().0, ps.last().1)
    }
}

/// No name occurs twice in `ps`.
pub open spec fn unique_names(ps: Seq<(Seq<char>, Seq<char>)>) -> bool {
    forall|i: int, j: int| 0 <= i < j < ps.len() ==> ps[i].0 != ps[j].0
}

/// A name is in the denoted mapping exactly when some pair carries it.
pub proof fn lemma_mapping_contains(ps: Seq<(Seq<char>, Seq<char>)>, k: Seq<char>)
    ensures
        mapping_of_pairs(ps).dom().contains(k) <==> exists|i: int|
            0 <= i < ps.len() && ps[i].0 == k,
    decreases ps.len(),
{
    if ps.len() > 0 {
        lemma_mapping_contains(ps.drop_last(), k);
        if ps.last().0 == k {
            assert(ps[ps.len() - 1].0 == k);
        } else {
            if mapping_of_pairs(ps).dom().contains(k) {
                let i = choose|i: int| 0 <= i < ps.len() - 1 && ps.drop_last()[i].0 == k;
                assert(ps[i].0 == k);
            }
            if exists|i: int| 0 <= i < ps.len() && ps[i].0 == k {
                let i = choose|i: int| 0 <= i < ps.len() && ps[i].0 == k;
                assert(i < ps.len() - 1);
                assert(ps.drop_last()[i].0 == k);
            }
        }
    }
}

/// With unique names, the mapping holds each pair's value under its name.
pub proof fn lemma_mapping_at(ps: Seq<(Seq<char>, Seq<char>)>, i: int)
    requires
        unique_names(ps),
        0 <= i < ps.len(),
    ensures
        mapping_of_pairs(ps).dom().contains(ps[i].0),
        mapping_of_pairs(ps)[ps[i].0] == ps[i].1,
    decreases ps.len(),
{
    if i < ps.len() - 1 {
        assert forall|a: int, b: int| 0 <= a < b < ps.len() - 1 implies ps.drop_last()[a].0
            != ps.drop_last()[b].0 by {
            assert(ps.drop_last()[a] == ps[a]);
            assert(ps.drop_last()[b] == ps[b]);
        }
        assert(ps.drop_last()[i] == ps[i]);
        lemma_mapping_at(ps.drop_last(), i);
        assert(ps.last().0 != ps[i].0);
    }
}

/// Appending a pair inserts it into the denoted mapping.
pub proof fn lemma_mapping_push(ps: Seq<(Seq<char>, Seq<char>)>, p: (Seq<char>, Seq<char>))
    ensures
        mapping_of_pairs(ps.push(p)) == mapping_of_pairs(ps).insert(p.0, p.1),
{
    assert(ps.push(p).drop_last() =~= ps);
    assert(ps.push(p).last() == p);
}

/// Replacing the value of the pair that carries a name inserts the new
/// value into the denoted mapping.
pub proof fn lemma_mapping_update(ps: Seq<(Seq<char>, Seq<char>)>, i: int, v: Seq<char>)
    requires
        unique_names(ps),
        0 <= i < ps.len(),
    ensures
        mapping_of_pairs(ps.update(i, (ps[i].0, v))) == mapping_of_pairs(ps).insert(ps[i].0, v),
    decreases ps.len(),
{
    let k = ps[i].0;
    let q = ps.update(i, (k, v));
    if i == ps.len() - 1 {
        assert(q.drop_last() =~= ps.drop_last());
        assert(q.last() == (k, v));
        assert(mapping_of_pairs(ps.drop_last()).insert(ps.last().0, ps.last().1).insert(k, v)
            =~= mapping_of_pairs(ps.drop_last()).insert(k, v));
    } else {
        assert forall|a: int, b: int| 0 <= a < b < ps.len() - 1 implies ps.drop_last()[a].0
            != ps.drop_last()[b].0 by {
            assert(ps.drop_last()[a] == ps[a]);
            assert(ps.drop_last()[b] == ps[b]);
        }
        assert(ps.drop_last()[i] == ps[i]);
        lemma_mapping_update(ps.drop_last(), i, v);
        assert(q.drop_last() =~= ps.drop_last().update(i, (k, v)));
        assert(q.last() == ps.last());
        assert(ps.last().0 != k);
        assert(mapping_of_pairs(ps.drop_last()).insert(k, v).insert(ps.last().0, ps.last().1)
            =~= mapping_of_pairs(ps.drop_last()).insert(ps.last().0, ps.last().1).insert(k, v));
    }
}

/// Removing the pair that carries a name removes the name from the
/// denoted mapping.
pub proof fn lemma_mapping_remove(ps: Seq<(Seq<char>, Seq<char>)>, i: int)
    requires
        unique_names(ps),
        0 <= i < ps.len(),
    ensures
        mapping_of_pairs(ps.remove(i)) == mapping_of_pairs(ps).remove(ps[i].0),
    decreases ps.len(),
{
    let k = ps[i].0;
    let q = ps.remove(i);
    if i == ps.len() - 1 {
        assert(q =~= ps.drop_last());
        assert forall|a: int| 0 <= a < ps.len() - 1 implies ps.drop_last()[a].0 != k by {
            assert(ps.drop_last()[a] == ps[a]);
        }
        lemma_mapping_contains(ps.drop_last(), k);
        assert(!mapping_of_pairs(ps.drop_last()).dom().contains(k));
        assert(mapping_of_pairs(ps.drop_last()).insert(k, ps.last().1).remove(k)
            =~= mapping_of_pairs(ps.drop_last()));
    } else {
        assert forall|a: int, b: int| 0 <= a < b < ps.len() - 1 implies ps.drop_last()[a].0
            != ps.drop_last()[b].0 by {
            assert(ps.drop_last()[a] == ps[a]);
            assert(ps.drop_last()[b] == ps[b]);
        }
        assert(ps.drop_last()[i] == ps[i]);
        lemma_mapping_remove(ps.drop_last(), i);
        assert(q.drop_last() =~= ps.drop_last().remove(i));
        assert(q.last() == ps.last());
        assert(ps.last().0 != k);
        assert(mapping_of_pairs(ps.drop_last()).remove(k).insert(ps.last().0, ps.last().1)
            =~= mapping_of_pairs(ps.drop_last()).insert(ps.last().0, ps.last().1).remove(k));
    }
}

} // verus!
