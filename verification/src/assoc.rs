use vstd::prelude::*;

verus! {

/// The map that a list of keyed entries stands for.
pub open spec fn assoc_map<V>(s: Seq<(Seq<char>, V)>) -> Map<Seq<char>, V>
    decreases s.len(),
{
    if s.len() == 0 {
        Map::empty()
    } else {
        assoc_map(s.drop_last()).insert(s.last().0, s.last().1)
    }
}

/// No key occurs twice in the list.
pub open spec fn unique_keys<V>(s: Seq<(Seq<char>, V)>) -> bool {
    forall|i: int, j: int| 0 <= i < j < s.len() ==> s[i].0 != s[j].0
}

pub proof fn lemma_assoc_push<V>(s: Seq<(Seq<char>, V)>, k: Seq<char>, v: V)
    ensures
        assoc_map(s.push((k, v))) == assoc_map(s).insert(k, v),
        unique_keys(s) && !assoc_map(s).dom().contains(k) ==> unique_keys(s.push((k, v))),
{
    assert(s.push((k, v)).drop_last() =~= s);
    if unique_keys(s) && !assoc_map(s).dom().contains(k) {
        assert forall|i: int, j: int| 0 <= i < j < s.push((k, v)).len() implies s.push((k, v))[i].0 != s.push((k, v))[j].0 by {
            if j == s.len() {
                lemma_assoc_has(s, i);
            }
        }
    }
}

pub proof fn lemma_assoc_has<V>(s: Seq<(Seq<char>, V)>, i: int)
    requires
        0 <= i < s.len(),
    ensures
        assoc_map(s).dom().contains(s[i].0),
    decreases s.len(),
{
    if i < s.len() - 1 {
        lemma_assoc_has(s.drop_last(), i);
    }
}

pub proof fn lemma_assoc_absent<V>(s: Seq<(Seq<char>, V)>, k: Seq<char>)
    requires
        forall|i: int| 0 <= i < s.len() ==> s[i].0 != k,
    ensures
        !assoc_map(s).dom().contains(k),
    decreases s.len(),
{
    if s.len() > 0 {
        lemma_assoc_absent(s.drop_last(), k);
    }
}

pub proof fn lemma_assoc_index<V>(s: Seq<(Seq<char>, V)>, i: int)
    requires
        0 <= i < s.len(),
        unique_keys(s),
    ensures
        assoc_map(s).dom().contains(s[i].0),
        assoc_map(s)[s[i].0] == s[i].1,
    decreases s.len(),
{
    if i < s.len() - 1 {
        lemma_assoc_index(s.drop_last(), i);
    }
}

pub proof fn lemma_assoc_update<V>(s: Seq<(Seq<char>, V)>, i: int, v: V)
    requires
        0 <= i < s.len(),
        unique_keys(s),
    ensures
        assoc_map(s.update(i, (s[i].0, v))) == assoc_map(s).insert(s[i].0, v),
        unique_keys(s.update(i, (s[i].0, v))),
    decreases s.len(),
{
    let t = s.update(i, (s[i].0, v));
    if i == s.len() - 1 {
        assert(t.drop_last() =~= s.drop_last());
        assert(assoc_map(t) =~= assoc_map(s).insert(s[i].0, v));
    } else {
        assert(t.drop_last() =~= s.drop_last().update(i, (s[i].0, v)));
        lemma_assoc_update(s.drop_last(), i, v);
        assert(assoc_map(t) =~= assoc_map(s).insert(s[i].0, v));
    }
}

/// The keys of an assoc list are exactly the keys of its map.
pub proof fn lemma_assoc_dom<V>(s: Seq<(Seq<char>, V)>, k: Seq<char>)
    ensures
        assoc_map(s).dom().contains(k) <==> exists|i: int| 0 <= i < s.len() && s[i].0 == k,
{
    if assoc_map(s).dom().contains(k) {
        if !(exists|i: int| 0 <= i < s.len() && s[i].0 == k) {
            lemma_assoc_absent(s, k);
        }
    } else {
        if exists|i: int| 0 <= i < s.len() && s[i].0 == k {
            let i = choose|i: int| 0 <= i < s.len() && s[i].0 == k;
            lemma_assoc_has(s, i);
        }
    }
}

pub proof fn lemma_assoc_finite<V>(s: Seq<(Seq<char>, V)>)
    ensures
        assoc_map(s).dom().finite(),
    decreases s.len(),
{
    if s.len() > 0 {
        lemma_assoc_finite(s.drop_last());
    }
}


pub proof fn lemma_assoc_remove<V>(s: Seq<(Seq<char>, V)>, i: int)
    requires
        0 <= i < s.len(),
        unique_keys(s),
    ensures
        assoc_map(s.remove(i)) == assoc_map(s).remove(s[i].0),
        unique_keys(s.remove(i)),
    decreases s.len(),
{
    let t = s.remove(i);
    assert forall|a: int, b: int| 0 <= a < b < t.len() implies t[a].0 != t[b].0 by {
        let a2 = if a < i { a } else { a + 1 };
        let b2 = if b < i { b } else { b + 1 };
        assert(t[a] == s[a2]);
        assert(t[b] == s[b2]);
    }
    if i == s.len() - 1 {
        assert(t =~= s.drop_last());
        assert forall|j: int| 0 <= j < s.drop_last().len() implies s.drop_last()[j].0 != s[i].0 by {
            assert(s.drop_last()[j] == s[j]);
        }
        lemma_assoc_absent(s.drop_last(), s[i].0);
        assert(assoc_map(t) =~= assoc_map(s).remove(s[i].0));
    } else {
        let d = s.drop_last();
        assert(t.drop_last() =~= d.remove(i));
        assert(t.last() == s.last());
        assert(unique_keys(d)) by {
            assert forall|a: int, b: int| 0 <= a < b < d.len() implies d[a].0 != d[b].0 by {
                assert(d[a] == s[a]);
                assert(d[b] == s[b]);
            }
        }
        lemma_assoc_remove(d, i);
        assert(d[i] == s[i]);
        assert(s.last().0 != s[i].0);
        assert(assoc_map(t) =~= assoc_map(s).remove(s[i].0));
    }
}

} // verus!
