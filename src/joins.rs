//! Matching cached source records with fresh target records by key.
//!
//! Where several target records share a key, the last of them is the
//! counterpart, as it is when a key-to-record map is built from the list.

use crate::types::Keyed;
use vstd::prelude::*;

verus! {

/// The index of the last record of `records` whose key is `k`.
pub open spec fn last_with_key<T: Keyed>(records: Seq<T>, k: Seq<char>) -> Option<int>
    decreases records.len(),
{
    if records.len() == 0 {
        None
    } else if records.last().key_view() == k {
        Some(records.len() - 1)
    } else {
        last_with_key(records.drop_last(), k)
    }
}

/// Whether some record of `records` has the key `k`.
pub open spec fn has_counterpart<T: Keyed>(records: Seq<T>, k: Seq<char>) -> bool {
    exists|i: int| 0 <= i < records.len() && #[trigger] records[i].key_view() == k
}

/// The records of `source` whose key no record of `target` has, in order.
pub open spec fn without_counterpart<S: Keyed, T: Keyed>(source: Seq<S>, target: Seq<T>) -> Seq<S>
    decreases source.len(),
{
    if source.len() == 0 {
        Seq::empty()
    } else {
        let rest = without_counterpart(source.drop_last(), target);
        if has_counterpart(target, source.last().key_view()) {
            rest
        } else {
            rest.push(source.last())
        }
    }
}

/// The records of `source` whose key some record of `target` has, in order.
pub open spec fn with_counterpart<S: Keyed, T: Keyed>(source: Seq<S>, target: Seq<T>) -> Seq<S>
    decreases source.len(),
{
    if source.len() == 0 {
        Seq::empty()
    } else {
        let rest = with_counterpart(source.drop_last(), target);
        if has_counterpart(target, source.last().key_view()) {
            rest.push(source.last())
        } else {
            rest
        }
    }
}

/// The records of `source` that have a counterpart in `target`, in order,
/// each with the index of its counterpart.
pub open spec fn paired_with_counterpart<S: Keyed, T: Keyed>(source: Seq<S>, target: Seq<T>) -> Seq<
    (S, usize),
>
    decreases source.len(),
{
    if source.len() == 0 {
        Seq::empty()
    } else {
        let rest = paired_with_counterpart(source.drop_last(), target);
        match last_with_key(target, source.last().key_view()) {
            Some(j) => rest.push((source.last(), j as usize)),
            None => rest,
        }
    }
}

/// The last record with a key is one with that key, and there is one exactly
/// when some record has the key.
pub proof fn lemma_last_with_key<T: Keyed>(records: Seq<T>, k: Seq<char>)
    ensures
        last_with_key(records, k) is Some <==> has_counterpart(records, k),
        match last_with_key(records, k) {
            Some(j) => 0 <= j < records.len() && records[j].key_view() == k && forall|i: int|
                j < i < records.len() ==> #[trigger] records[i].key_view() != k,
            None => true,
        },
    decreases records.len(),
{
    if records.len() > 0 {
        let init = records.drop_last();
        lemma_last_with_key(init, k);
        if records.last().key_view() != k {
            if has_counterpart(records, k) {
                let i = choose|i: int| 0 <= i < records.len() && #[trigger] records[i].key_view() == k;
                assert(init[i].key_view() == k);
            }
            if has_counterpart(init, k) {
                let i = choose|i: int| 0 <= i < init.len() && #[trigger] init[i].key_view() == k;
                assert(records[i].key_view() == k);
            }
            match last_with_key(init, k) {
                Some(j) => {
                    assert forall|i: int| j < i < records.len() implies #[trigger] records[i].key_view()
                        != k by {
                        if i < init.len() {
                            assert(init[i] == records[i]);
                        }
                    }
                },
                None => {},
            }
        } else {
            assert(records[records.len() - 1].key_view() == k);
        }
    }
}

/// Finds the counterpart of the key `k`: the last record of `records` with it.
pub fn find_counterpart<T: Keyed>(records: &Vec<T>, k: &String) -> (r: Option<usize>)
    ensures
        match r {
            Some(j) => last_with_key(records@, k@) == Some(j as int),
            None => last_with_key(records@, k@) is None,
        },
{
    let mut i: usize = records.len();
    assert(records@.subrange(0, i as int) =~= records@);
    while i > 0
        invariant
            i <= records.len(),
            last_with_key(records@, k@) == last_with_key(records@.subrange(0, i as int), k@),
        decreases i,
    {
        let ghost pre = records@.subrange(0, i as int);
        assert(pre.drop_last() =~= records@.subrange(0, i - 1));
        assert(pre.last() == records@[i - 1]);
        let found: &String = records[i - 1].key_ref();
        if found.eq(k) {
            return Some(i - 1);
        }
        i = i - 1;
    }
    None
}

/// Whether some record of `records` has the key `k`.
pub fn has_key_in<T: Keyed>(records: &Vec<T>, k: &String) -> (r: bool)
    ensures
        r == has_counterpart(records@, k@),
{
    proof {
        lemma_last_with_key(records@, k@);
    }
    find_counterpart(records, k).is_some()
}

/// The records of `source` that have no counterpart in `target`: what a
/// create-style operation still has to create.
pub fn missing_in<S: Keyed, T: Keyed>(source: Vec<S>, target: &Vec<T>) -> (r: Vec<S>)
    ensures
        r@ == without_counterpart(source@, target@),
{
    let ghost src = source@;
    let mut r: Vec<S> = Vec::new();
    assert(src.subrange(0, 0) =~= Seq::<S>::empty());
    for s in it: source.into_iter()
        invariant
            it.seq() == src,
            r@ == without_counterpart(src.subrange(0, it.index() as int), target@),
    {
        let ghost i = it.index();
        assert(src.subrange(0, i + 1).drop_last() =~= src.subrange(0, i as int));
        assert(src.subrange(0, i + 1).last() == s);
        if !has_key_in(target, s.key_ref()) {
            r.push(s);
        }
    }
    assert(src.subrange(0, src.len() as int) =~= src);
    r
}

/// The records of `source` that have a counterpart in `target`: what an
/// operation that needs both sides may act on.
pub fn present_in<S: Keyed, T: Keyed>(source: Vec<S>, target: &Vec<T>) -> (r: Vec<S>)
    ensures
        r@ == with_counterpart(source@, target@),
{
    let ghost src = source@;
    let mut r: Vec<S> = Vec::new();
    assert(src.subrange(0, 0) =~= Seq::<S>::empty());
    for s in it: source.into_iter()
        invariant
            it.seq() == src,
            r@ == with_counterpart(src.subrange(0, it.index() as int), target@),
    {
        let ghost i = it.index();
        assert(src.subrange(0, i + 1).drop_last() =~= src.subrange(0, i as int));
        assert(src.subrange(0, i + 1).last() == s);
        if has_key_in(target, s.key_ref()) {
            r.push(s);
        }
    }
    assert(src.subrange(0, src.len() as int) =~= src);
    r
}

/// The records of `source` that have a counterpart in `target`, each with the
/// index of that counterpart in `target`.
pub fn pair_with_counterparts<S: Keyed, T: Keyed>(source: Vec<S>, target: &Vec<T>) -> (r: Vec<
    (S, usize),
>)
    ensures
        r@ == paired_with_counterpart(source@, target@),
        forall|i: int| 0 <= i < r.len() ==> #[trigger] r@[i].1 < target.len(),
{
    let ghost src = source@;
    let mut r: Vec<(S, usize)> = Vec::new();
    assert(src.subrange(0, 0) =~= Seq::<S>::empty());
    for s in it: source.into_iter()
        invariant
            it.seq() == src,
            r@ == paired_with_counterpart(src.subrange(0, it.index() as int), target@),
            forall|i: int| 0 <= i < r.len() ==> #[trigger] r@[i].1 < target.len(),
    {
        let ghost i = it.index();
        assert(src.subrange(0, i + 1).drop_last() =~= src.subrange(0, i as int));
        assert(src.subrange(0, i + 1).last() == s);
        proof {
            lemma_last_with_key(target@, s.key_view());
        }
        match find_counterpart(target, s.key_ref()) {
            Some(j) => r.push((s, j)),
            None => {},
        }
    }
    assert(src.subrange(0, src.len() as int) =~= src);
    r
}

/// Every source record is either missing from the target or present there,
/// never both: the two joins split the source between them.
pub proof fn joins_split_source<S: Keyed, T: Keyed>(source: Seq<S>, target: Seq<T>)
    ensures
        without_counterpart(source, target).len() + with_counterpart(source, target).len()
            == source.len(),
        forall|i: int|
            0 <= i < without_counterpart(source, target).len() ==> !has_counterpart(
                target,
                #[trigger] without_counterpart(source, target)[i].key_view(),
            ),
        forall|i: int|
            0 <= i < with_counterpart(source, target).len() ==> has_counterpart(
                target,
                #[trigger] with_counterpart(source, target)[i].key_view(),
            ),
    decreases source.len(),
{
    if source.len() > 0 {
        joins_split_source(source.drop_last(), target);
        let m = without_counterpart(source, target);
        let p = with_counterpart(source, target);
        let m0 = without_counterpart(source.drop_last(), target);
        let p0 = with_counterpart(source.drop_last(), target);
        assert forall|i: int| 0 <= i < m.len() implies !has_counterpart(
            target,
            #[trigger] m[i].key_view(),
        ) by {
            if i < m0.len() {
                assert(m[i] == m0[i]);
            }
        }
        assert forall|i: int| 0 <= i < p.len() implies has_counterpart(
            target,
            #[trigger] p[i].key_view(),
        ) by {
            if i < p0.len() {
                assert(p[i] == p0[i]);
            }
        }
    }
}

/// A record with no counterpart in `target` is among those still to create.
proof fn lemma_missing_listed<S: Keyed, T: Keyed>(source: Seq<S>, target: Seq<T>, i: int)
    requires
        0 <= i < source.len(),
        !has_counterpart(target, source[i].key_view()),
    ensures
        exists|j: int|
            0 <= j < without_counterpart(source, target).len() && #[trigger] without_counterpart(
                source,
                target,
            )[j] == source[i],
    decreases source.len(),
{
    let m = without_counterpart(source, target);
    if i == source.len() - 1 {
        assert(m[m.len() - 1] == source[i]);
    } else {
        let init = source.drop_last();
        assert(init[i] == source[i]);
        lemma_missing_listed(init, target, i);
        let m0 = without_counterpart(init, target);
        let j = choose|j: int| 0 <= j < m0.len() && #[trigger] m0[j] == init[i];
        assert(m[j] == m0[j]);
    }
}

/// Re-running a create-style operation creates nothing more: once every key
/// that was present stays present and every record that was missing has been
/// created under its key, no record is missing any longer.
pub proof fn creating_missing_is_idempotent<S: Keyed, T: Keyed>(
    source: Seq<S>,
    before: Seq<T>,
    after: Seq<T>,
)
    requires
        forall|k: Seq<char>| has_counterpart(before, k) ==> has_counterpart(after, k),
        forall|j: int|
            0 <= j < without_counterpart(source, before).len() ==> has_counterpart(
                after,
                #[trigger] without_counterpart(source, before)[j].key_view(),
            ),
    ensures
        without_counterpart(source, after) == Seq::<S>::empty(),
{
    assert forall|i: int| 0 <= i < source.len() implies has_counterpart(
        after,
        #[trigger] source[i].key_view(),
    ) by {
        if !has_counterpart(before, source[i].key_view()) {
            lemma_missing_listed(source, before, i);
            let m = without_counterpart(source, before);
            let j = choose|j: int| 0 <= j < m.len() && #[trigger] m[j] == source[i];
            assert(has_counterpart(after, m[j].key_view()));
        }
    }
    lemma_none_missing(source, after);
}

proof fn lemma_none_missing<S: Keyed, T: Keyed>(source: Seq<S>, target: Seq<T>)
    requires
        forall|i: int| 0 <= i < source.len() ==> has_counterpart(target, #[trigger] source[i].key_view()),
    ensures
        without_counterpart(source, target) == Seq::<S>::empty(),
    decreases source.len(),
{
    if source.len() > 0 {
        let init = source.drop_last();
        assert forall|i: int| 0 <= i < init.len() implies has_counterpart(
            target,
            #[trigger] init[i].key_view(),
        ) by {
            assert(init[i] == source[i]);
        }
        lemma_none_missing(init, target);
        assert(has_counterpart(target, source[source.len() - 1].key_view()));
    }
}

/// Each record that the matching join pairs comes with the index of its
/// counterpart: a target record with the same key, and the last such one.
pub proof fn pairs_name_their_counterparts<S: Keyed, T: Keyed>(source: Seq<S>, target: Seq<T>)
    requires
        target.len() <= usize::MAX,
    ensures
        forall|i: int|
            0 <= i < paired_with_counterpart(source, target).len() ==> {
                let (s, j) = #[trigger] paired_with_counterpart(source, target)[i];
                &&& 0 <= j < target.len()
                &&& target[j as int].key_view() == s.key_view()
                &&& forall|m: int| j < m < target.len() ==> target[m].key_view() != s.key_view()
            },
        paired_with_counterpart(source, target).len() == with_counterpart(source, target).len(),
    decreases source.len(),
{
    if source.len() > 0 {
        let init = source.drop_last();
        pairs_name_their_counterparts(init, target);
        lemma_last_with_key(target, source.last().key_view());
        let p = paired_with_counterpart(source, target);
        let p0 = paired_with_counterpart(init, target);
        assert forall|i: int| 0 <= i < p.len() implies {
            let (s, j) = #[trigger] p[i];
            &&& 0 <= j < target.len()
            &&& target[j as int].key_view() == s.key_view()
            &&& forall|m: int| j < m < target.len() ==> target[m].key_view() != s.key_view()
        } by {
            if i < p0.len() {
                assert(p[i] == p0[i]);
            } else {
                match last_with_key(target, source.last().key_view()) {
                    Some(j) => {
                        assert(p[i] == (source.last(), j as usize));
                        assert((j as usize) as int == j);
                    },
                    None => {},
                }
            }
        }
    }
}

} // verus!
