//! Association lists with uniquely keyed entries, and the finite map such
//! a list denotes. The delivery bus keys queues by participant identity
//! and the node keys cached retinal content by digest; both hold their
//! entries in a vector and reason about them through [`pairs_map`].

use vstd::prelude::*;

verus! {

/// No two entries share a key (keys compared by their deep views).
pub open spec fn pairs_unique<K: DeepView, V>(s: Seq<(K, V)>) -> bool {
    forall|i: int, j: int|
        0 <= i < j < s.len() ==> s[i].0.deep_view() != s[j].0.deep_view()
}

/// The map an entry list denotes, built left to right.
pub open spec fn pairs_map<K: DeepView, V: DeepView>(s: Seq<(K, V)>) -> Map<K::V, V::V>
    decreases s.len(),
{
    if s.len() == 0 {
        Map::empty()
    } else {
        pairs_map(s.drop_last()).insert(s.last().0.deep_view(), s.last().1.deep_view())
    }
}

pub proof fn lemma_pairs_unique_prefix<K: DeepView, V>(s: Seq<(K, V)>)
    requires
        s.len() > 0,
        pairs_unique(s),
    ensures
        pairs_unique(s.drop_last()),
{
    assert(forall|a: int, b: int|
        0 <= a < b < s.drop_last().len() ==> s.drop_last()[a].0.deep_view()
            != s.drop_last()[b].0.deep_view());
}

pub proof fn lemma_pairs_map_contains<K: DeepView, V: DeepView>(s: Seq<(K, V)>, k: K::V)
    ensures
        pairs_map(s).contains_key(k) <==> exists|i: int|
            0 <= i < s.len() && s[i].0.deep_view() == k,
    decreases s.len(),
{
    if s.len() == 0 {
    } else {
        lemma_pairs_map_contains(s.drop_last(), k);
        if s.last().0.deep_view() == k {
            assert(s[s.len() - 1].0.deep_view() == k);
        } else {
            if pairs_map(s).contains_key(k) {
                let i = choose|i: int|
                    0 <= i < s.drop_last().len() && s.drop_last()[i].0.deep_view() == k;
                assert(s[i].0.deep_view() == k);
            }
            if exists|i: int| 0 <= i < s.len() && s[i].0.deep_view() == k {
                let i = choose|i: int| 0 <= i < s.len() && s[i].0.deep_view() == k;
                assert(i < s.len() - 1);
                assert(s.drop_last()[i].0.deep_view() == k);
            }
        }
    }
}

pub proof fn lemma_pairs_map_value<K: DeepView, V: DeepView>(s: Seq<(K, V)>, i: int)
    requires
        pairs_unique(s),
        0 <= i < s.len(),
    ensures
        pairs_map(s).contains_key(s[i].0.deep_view()),
        pairs_map(s)[s[i].0.deep_view()] == s[i].1.deep_view(),
    decreases s.len(),
{
    if i == s.len() - 1 {
    } else {
        lemma_pairs_unique_prefix(s);
        assert(s.drop_last()[i] == s[i]);
        lemma_pairs_map_value(s.drop_last(), i);
        assert(s.last().0.deep_view() != s[i].0.deep_view());
    }
}

pub proof fn lemma_pairs_map_update<K: DeepView, V: DeepView>(s: Seq<(K, V)>, i: int, p: (K, V))
    requires
        pairs_unique(s),
        0 <= i < s.len(),
        p.0.deep_view() == s[i].0.deep_view(),
    ensures
        pairs_map(s.update(i, p)) == pairs_map(s).insert(p.0.deep_view(), p.1.deep_view()),
        pairs_unique(s.update(i, p)),
    decreases s.len(),
{
    let s2 = s.update(i, p);
    assert(forall|a: int| 0 <= a < s.len() && a != i ==> s2[a] == s[a]);
    assert(s2[i] == p);
    assert(pairs_unique(s2));
    if i == s.len() - 1 {
        assert(s2.drop_last() =~= s.drop_last());
        assert(s2.last() == p);
        assert(pairs_map(s2) == pairs_map(s.drop_last()).insert(p.0.deep_view(), p.1.deep_view()));
        assert(pairs_map(s.drop_last()).insert(p.0.deep_view(), p.1.deep_view()) =~= pairs_map(
            s,
        ).insert(p.0.deep_view(), p.1.deep_view()));
    } else {
        lemma_pairs_unique_prefix(s);
        assert(s.drop_last()[i] == s[i]);
        lemma_pairs_map_update(s.drop_last(), i, p);
        assert(s2.drop_last() =~= s.drop_last().update(i, p));
        assert(s2.last() == s.last());
        assert(pairs_map(s2) == pairs_map(s.drop_last()).insert(
            p.0.deep_view(),
            p.1.deep_view(),
        ).insert(s.last().0.deep_view(), s.last().1.deep_view()));
        assert(s.last().0.deep_view() != p.0.deep_view());
        assert(pairs_map(s.drop_last()).insert(p.0.deep_view(), p.1.deep_view()).insert(
            s.last().0.deep_view(),
            s.last().1.deep_view(),
        ) =~= pairs_map(s).insert(p.0.deep_view(), p.1.deep_view()));
    }
}

pub proof fn lemma_pairs_map_push<K: DeepView, V: DeepView>(s: Seq<(K, V)>, p: (K, V))
    ensures
        pairs_map(s.push(p)) == pairs_map(s).insert(p.0.deep_view(), p.1.deep_view()),
        (pairs_unique(s) && (forall|i: int|
            0 <= i < s.len() ==> s[i].0.deep_view() != p.0.deep_view())) ==> pairs_unique(
            s.push(p),
        ),
{
    assert(s.push(p).drop_last() =~= s);
    assert(s.push(p).last() == p);
    if pairs_unique(s) && (forall|i: int|
        0 <= i < s.len() ==> s[i].0.deep_view() != p.0.deep_view()) {
        assert(forall|a: int| 0 <= a < s.len() ==> s.push(p)[a] == s[a]);
        assert(pairs_unique(s.push(p)));
    }
}

/// Rewriting every entry's value with a key-indexed function rewrites the
/// denoted map pointwise and keeps its domain.
pub proof fn lemma_pairs_map_transform<K: DeepView, V: DeepView>(
    s1: Seq<(K, V)>,
    s2: Seq<(K, V)>,
    f: spec_fn(K::V, V::V) -> V::V,
)
    requires
        s1.len() == s2.len(),
        pairs_unique(s1),
        forall|i: int|
            0 <= i < s1.len() ==> s2[i].0.deep_view() == s1[i].0.deep_view()
                && s2[i].1.deep_view() == f(s1[i].0.deep_view(), s1[i].1.deep_view()),
    ensures
        pairs_map(s2).dom() == pairs_map(s1).dom(),
        forall|k: K::V| #[trigger]
            pairs_map(s1).contains_key(k) ==> pairs_map(s2)[k] == f(k, pairs_map(s1)[k]),
        pairs_unique(s2),
    decreases s1.len(),
{
    assert(forall|i: int, j: int|
        0 <= i < j < s2.len() ==> s2[i].0.deep_view() != s2[j].0.deep_view());
    if s1.len() == 0 {
        assert(pairs_map(s2).dom() =~= pairs_map(s1).dom());
    } else {
        lemma_pairs_unique_prefix(s1);
        assert(forall|i: int|
            0 <= i < s1.drop_last().len() ==> s2.drop_last()[i].0.deep_view()
                == s1.drop_last()[i].0.deep_view() && s2.drop_last()[i].1.deep_view() == f(
                s1.drop_last()[i].0.deep_view(),
                s1.drop_last()[i].1.deep_view(),
            ));
        lemma_pairs_map_transform(s1.drop_last(), s2.drop_last(), f);
        assert(s2[s1.len() - 1].0.deep_view() == s1[s1.len() - 1].0.deep_view());
        assert(pairs_map(s2) == pairs_map(s2.drop_last()).insert(
            s2.last().0.deep_view(),
            s2.last().1.deep_view(),
        ));
        assert(pairs_map(s1) == pairs_map(s1.drop_last()).insert(
            s1.last().0.deep_view(),
            s1.last().1.deep_view(),
        ));
        assert(pairs_map(s2).dom() =~= pairs_map(s1).dom());
        assert forall|k: K::V| #[trigger] pairs_map(s1).contains_key(k) implies pairs_map(s2)[k]
            == f(k, pairs_map(s1)[k]) by {
            if k == s1.last().0.deep_view() {
            } else {
                lemma_pairs_map_contains(s1, k);
                lemma_pairs_map_contains(s1.drop_last(), k);
                let i = choose|i: int| 0 <= i < s1.len() && s1[i].0.deep_view() == k;
                assert(i < s1.len() - 1);
                assert(s1.drop_last()[i].0.deep_view() == k);
            }
        }
    }
}

} // verus!
