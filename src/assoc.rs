use vstd::prelude::*;

verus! {

/// The value of the first pair under `key`: a sequence of pairs read as a
/// map from keys to values.
pub open spec fn assoc<V>(p: Seq<(Seq<char>, V)>, key: Seq<char>) -> Option<V>
    decreases p.len(),
{
    if p.len() == 0 {
        None
    } else if p[0].0 == key {
        Some(p[0].1)
    } else {
        assoc(p.drop_first(), key)
    }
}

/// `i` is the first position that holds `key`.
pub open spec fn first_at<V>(p: Seq<(Seq<char>, V)>, key: Seq<char>, i: int) -> bool {
    &&& 0 <= i < p.len()
    &&& p[i].0 == key
    &&& forall|j: int| 0 <= j < i ==> #[trigger] p[j].0 != key
}

/// Where no position before `i` holds `key`, the lookup starts at `i`.
pub proof fn lemma_assoc_skip<V>(p: Seq<(Seq<char>, V)>, key: Seq<char>, i: int)
    requires
        0 <= i <= p.len(),
        forall|j: int| 0 <= j < i ==> #[trigger] p[j].0 != key,
    ensures
        assoc(p, key) == assoc(p.subrange(i, p.len() as int), key),
    decreases i,
{
    if i > 0 {
        assert(p[0].0 != key);
        lemma_assoc_skip(p.drop_first(), key, i - 1);
        assert(p.drop_first().subrange(i - 1, p.drop_first().len() as int) =~= p.subrange(i, p.len() as int));
    } else {
        assert(p.subrange(0, p.len() as int) =~= p);
    }
}

/// The lookup finds the first position that holds the key.
pub proof fn lemma_assoc_first<V>(p: Seq<(Seq<char>, V)>, key: Seq<char>, i: int)
    requires
        first_at(p, key, i),
    ensures
        assoc(p, key) == Some(p[i].1),
{
    lemma_assoc_skip(p, key, i);
}

/// No position holds the key: the lookup finds nothing.
pub proof fn lemma_assoc_absent<V>(p: Seq<(Seq<char>, V)>, key: Seq<char>)
    requires
        forall|j: int| 0 <= j < p.len() ==> #[trigger] p[j].0 != key,
    ensures
        assoc(p, key) is None,
{
    lemma_assoc_skip(p, key, p.len() as int);
}

/// Replacing the value at the first position of `key` changes that key
/// alone.
pub proof fn lemma_assoc_update<V>(p: Seq<(Seq<char>, V)>, key: Seq<char>, i: int, v: V, other: Seq<char>)
    requires
        first_at(p, key, i),
    ensures
        assoc(p.update(i, (key, v)), other) == if other == key {
            Some(v)
        } else {
            assoc(p, other)
        },
    decreases i,
{
    let q = p.update(i, (key, v));
    if other == key {
        assert(first_at(q, key, i));
        lemma_assoc_first(q, key, i);
    } else if i == 0 {
        assert(q.drop_first() =~= p.drop_first());
    } else {
        assert(q.drop_first() =~= p.drop_first().update(i - 1, (key, v)));
        lemma_assoc_update(p.drop_first(), key, i - 1, v, other);
    }
}

/// Appending a pair for a key that is absent adds that key alone.
pub proof fn lemma_assoc_push<V>(p: Seq<(Seq<char>, V)>, key: Seq<char>, v: V, other: Seq<char>)
    requires
        assoc(p, key) is None,
    ensures
        assoc(p.push((key, v)), other) == if other == key {
            Some(v)
        } else {
            assoc(p, other)
        },
    decreases p.len(),
{
    if p.len() == 0 {
        assert(p.push((key, v)).drop_first() =~= Seq::<(Seq<char>, V)>::empty());
    } else {
        assert(p.push((key, v)).drop_first() =~= p.drop_first().push((key, v)));
        if p[0].0 != other {
            lemma_assoc_push(p.drop_first(), key, v, other);
        }
    }
}

/// No two pairs share a key.
pub open spec fn distinct_keys<V>(p: Seq<(Seq<char>, V)>) -> bool {
    forall|i: int, j: int| 0 <= i < j < p.len() ==> #[trigger] p[i].0 != #[trigger] p[j].0
}

/// A lookup that finds nothing means no pair holds the key.
pub proof fn lemma_assoc_none<V>(p: Seq<(Seq<char>, V)>, key: Seq<char>)
    requires
        assoc(p, key) is None,
    ensures
        forall|j: int| 0 <= j < p.len() ==> #[trigger] p[j].0 != key,
    decreases p.len(),
{
    if p.len() > 0 {
        lemma_assoc_none(p.drop_first(), key);
        assert forall|j: int| 0 <= j < p.len() implies #[trigger] p[j].0 != key by {
            if j > 0 {
                assert(p[j] == p.drop_first()[j - 1]);
            }
        }
    }
}

/// Replacing the value at a key's position keeps the keys distinct.
pub proof fn lemma_distinct_update<V>(p: Seq<(Seq<char>, V)>, i: int, v: V)
    requires
        distinct_keys(p),
        0 <= i < p.len(),
    ensures
        distinct_keys(p.update(i, (p[i].0, v))),
{
    let q = p.update(i, (p[i].0, v));
    assert forall|a: int, b: int| 0 <= a < b < q.len() implies #[trigger] q[a].0 != #[trigger] q[b].0 by {
        assert(q[a].0 == p[a].0 && q[b].0 == p[b].0);
    }
}

/// Appending a pair for an absent key keeps the keys distinct.
pub proof fn lemma_distinct_push<V>(p: Seq<(Seq<char>, V)>, key: Seq<char>, v: V)
    requires
        distinct_keys(p),
        forall|j: int| 0 <= j < p.len() ==> #[trigger] p[j].0 != key,
    ensures
        distinct_keys(p.push((key, v))),
{
    let q = p.push((key, v));
    assert forall|a: int, b: int| 0 <= a < b < q.len() implies #[trigger] q[a].0 != #[trigger] q[b].0 by {
        assert(q[a] == p[a]);
        if b < p.len() {
            assert(q[b] == p[b]);
        }
    }
}

/// Putting a pair for an absent key in front keeps the keys distinct.
pub proof fn lemma_distinct_prepend<V>(p: Seq<(Seq<char>, V)>, key: Seq<char>, v: V)
    requires
        distinct_keys(p),
        forall|j: int| 0 <= j < p.len() ==> #[trigger] p[j].0 != key,
    ensures
        distinct_keys(seq![(key, v)] + p),
{
    let q = seq![(key, v)] + p;
    assert forall|a: int, b: int| 0 <= a < b < q.len() implies #[trigger] q[a].0 != #[trigger] q[b].0 by {
        assert(q[b] == p[b - 1]);
        if a > 0 {
            assert(q[a] == p[a - 1]);
        }
    }
}

} // verus!
