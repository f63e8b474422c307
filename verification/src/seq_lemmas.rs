//! Facts about filtering prefixes of sequences, used by the loops that scan note lists.
use vstd::prelude::*;

verus! {

/// Filtering a prefix that grows by one element adds that element exactly when it passes.
pub proof fn lemma_filter_take_step<A>(s: Seq<A>, p: spec_fn(A) -> bool, j: int)
    requires
        0 <= j < s.len(),
    ensures
        s.take(j + 1).filter(p) == if p(s[j]) {
            s.take(j).filter(p).push(s[j])
        } else {
            s.take(j).filter(p)
        },
{
    reveal(Seq::filter);
    assert(s.take(j + 1).drop_last() =~= s.take(j));
    assert(s.take(j + 1).last() == s[j]);
}

/// Mapping a sequence that grows by one element adds the image of that element.
pub proof fn lemma_map_push<A, B>(s: Seq<A>, f: spec_fn(A) -> B, x: A)
    ensures
        s.push(x).map_values(f) == s.map_values(f).push(f(x)),
{
    assert(s.push(x).map_values(f) =~= s.map_values(f).push(f(x)));
}

/// A filter keeps every element that passes, so nothing passing is dropped: if no element
/// passes, the filter is empty, and if every element passes, the filter is the whole sequence.
pub proof fn lemma_filter_all<A>(s: Seq<A>, p: spec_fn(A) -> bool)
    requires
        forall|i: int| 0 <= i < s.len() ==> p(#[trigger] s[i]),
    ensures
        s.filter(p) == s,
    decreases s.len(),
{
    reveal(Seq::filter);
    if s.len() > 0 {
        lemma_filter_all(s.drop_last(), p);
        assert(s.drop_last().push(s.last()) =~= s);
    } else {
        assert(s =~= Seq::<A>::empty());
    }
}

/// Filtering keeps every copy of an element that passes and none of one that fails.
pub proof fn lemma_filter_count<A>(s: Seq<A>, p: spec_fn(A) -> bool, e: A)
    ensures
        s.filter(p).to_multiset().count(e) == if p(e) {
            s.to_multiset().count(e)
        } else {
            0
        },
    decreases s.len(),
{
    broadcast use vstd::seq_lib::group_to_multiset_ensures;

    reveal(Seq::filter);
    if s.len() > 0 {
        let init = s.drop_last();
        lemma_filter_count(init, p, e);
        assert(s =~= init.push(s.last()));
        assert(s.filter(p) == if p(s.last()) {
            init.filter(p).push(s.last())
        } else {
            init.filter(p)
        });
    } else {
        assert(s.filter(p) =~= s);
    }
}

} // verus!
