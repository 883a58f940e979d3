//! Small general facts about filtering sequences, shared by the registry
//! and the per-tick event accounting.

use vstd::prelude::*;

verus! {

/// Appending one element either appends it to the filtered sequence or
/// leaves that sequence alone, by whether it matches.
pub proof fn lemma_filter_push<A>(s: Seq<A>, pred: spec_fn(A) -> bool, e: A)
    ensures
        s.push(e).filter(pred) == if pred(e) {
            s.filter(pred).push(e)
        } else {
            s.filter(pred)
        },
{
    reveal(Seq::filter);
    assert(s.push(e).drop_last() =~= s);
    assert(s.push(e).last() == e);
}

/// A step of filtering one more element: filtering a prefix one longer
/// keeps the filtered prefix and appends the element exactly when it
/// matches.
pub proof fn lemma_filter_step<A>(s: Seq<A>, pred: spec_fn(A) -> bool, i: int)
    requires
        0 <= i < s.len(),
    ensures
        s.subrange(0, i + 1).filter(pred) == if pred(s[i]) {
            s.subrange(0, i).filter(pred).push(s[i])
        } else {
            s.subrange(0, i).filter(pred)
        },
{
    reveal(Seq::filter);
    assert(s.subrange(0, i + 1).drop_last() =~= s.subrange(0, i));
    assert(s.subrange(0, i + 1).last() == s[i]);
}

/// A property of every element survives filtering.
pub proof fn lemma_filter_keeps<A>(s: Seq<A>, pred: spec_fn(A) -> bool, q: spec_fn(A) -> bool)
    requires
        forall|i: int| 0 <= i < s.len() ==> q(#[trigger] s[i]),
    ensures
        forall|i: int| 0 <= i < s.filter(pred).len() ==> q(#[trigger] s.filter(pred)[i]),
    decreases s.len(),
{
    reveal(Seq::filter);
    if s.len() > 0 {
        assert(forall|i: int| 0 <= i < s.drop_last().len() ==> q(#[trigger] s.drop_last()[i]));
        lemma_filter_keeps(s.drop_last(), pred, q);
        assert forall|i: int| 0 <= i < s.filter(pred).len() implies q(#[trigger] s.filter(pred)[i]) by {
            if pred(s.last()) {
                assert(s.filter(pred) == s.drop_last().filter(pred).push(s.last()));
                if i < s.filter(pred).len() - 1 {
                    assert(s.filter(pred)[i] == s.drop_last().filter(pred)[i]);
                } else {
                    assert(s.filter(pred)[i] == s.last());
                    assert(q(s.last()));
                }
            } else {
                assert(s.filter(pred) == s.drop_last().filter(pred));
            }
        }
    }
}

/// A filter's length splits over any cut point.
pub proof fn lemma_filter_split<A>(s: Seq<A>, pred: spec_fn(A) -> bool, n: int)
    requires
        0 <= n <= s.len(),
    ensures
        s.filter(pred).len() == s.subrange(0, n).filter(pred).len() + s.subrange(
            n,
            s.len() as int,
        ).filter(pred).len(),
{
    assert(s =~= s.subrange(0, n) + s.subrange(n, s.len() as int));
    Seq::<A>::filter_distributes_over_add(s.subrange(0, n), s.subrange(n, s.len() as int), pred);
}

/// A sequence whose matching elements form one contiguous run has exactly
/// that run's length of them.
pub proof fn lemma_filter_run<A>(s: Seq<A>, pred: spec_fn(A) -> bool, a: int, b: int)
    requires
        0 <= a <= b <= s.len(),
        forall|i: int| 0 <= i < a ==> !pred(#[trigger] s[i]),
        forall|i: int| a <= i < b ==> pred(#[trigger] s[i]),
        forall|i: int| b <= i < s.len() ==> !pred(#[trigger] s[i]),
    ensures
        s.filter(pred).len() == b - a,
{
    lemma_filter_split(s, pred, b);
    let head = s.subrange(0, b);
    let tail = s.subrange(b, s.len() as int);
    lemma_filter_split(head, pred, a);
    assert(forall|i: int|
        0 <= i < head.subrange(0, a).len() ==> !pred(#[trigger] head.subrange(0, a)[i]));
    lemma_filter_none(head.subrange(0, a), pred);
    assert(forall|i: int|
        0 <= i < head.subrange(a, b).len() ==> pred(#[trigger] head.subrange(a, b)[i]));
    lemma_filter_all(head.subrange(a, b), pred);
    assert(forall|i: int| 0 <= i < tail.len() ==> !pred(#[trigger] tail[i]));
    lemma_filter_none(tail, pred);
}

/// Filtering a sequence none of whose elements match yields nothing.
pub proof fn lemma_filter_none<A>(s: Seq<A>, pred: spec_fn(A) -> bool)
    requires
        forall|i: int| 0 <= i < s.len() ==> !pred(#[trigger] s[i]),
    ensures
        s.filter(pred).len() == 0,
    decreases s.len(),
{
    reveal(Seq::filter);
    if s.len() > 0 {
        assert(forall|i: int|
            0 <= i < s.drop_last().len() ==> !pred(#[trigger] s.drop_last()[i]));
        lemma_filter_none(s.drop_last(), pred);
    }
}

/// Filtering a sequence all of whose elements match changes nothing.
pub proof fn lemma_filter_all<A>(s: Seq<A>, pred: spec_fn(A) -> bool)
    requires
        forall|i: int| 0 <= i < s.len() ==> pred(#[trigger] s[i]),
    ensures
        s.filter(pred) == s,
    decreases s.len(),
{
    reveal(Seq::filter);
    if s.len() > 0 {
        assert(forall|i: int| 0 <= i < s.drop_last().len() ==> pred(#[trigger] s.drop_last()[i]));
        lemma_filter_all(s.drop_last(), pred);
        assert(s.drop_last().push(s.last()) =~= s);
    }
}

} // verus!
