//! General facts about filtered sequences.
use vstd::prelude::*;

verus! {

/// Every element of a filtered sequence comes from the unfiltered sequence.
pub proof fn lemma_filter_member<A>(s: Seq<A>, pred: spec_fn(A) -> bool, i: int)
    requires
        0 <= i < s.filter(pred).len(),
    ensures
        exists|k: int| 0 <= k < s.len() && s[k] == s.filter(pred)[i],
    decreases s.len(),
{
    reveal(Seq::filter);
    if s.len() > 0 {
        let sub = s.drop_last().filter(pred);
        if i < sub.len() {
            lemma_filter_member(s.drop_last(), pred, i);
            let k = choose|k: int| 0 <= k < s.drop_last().len() && s.drop_last()[k] == sub[i];
            assert(s[k] == s.filter(pred)[i]);
        } else {
            assert(s[s.len() - 1] == s.filter(pred)[i]);
        }
    }
}

/// Filtering keeps a sequence whole when every element passes.
pub proof fn lemma_filter_all<A>(s: Seq<A>, pred: spec_fn(A) -> bool)
    requires
        forall|j: int| 0 <= j < s.len() ==> pred(#[trigger] s[j]),
    ensures
        s.filter(pred) == s,
    decreases s.len(),
{
    reveal(Seq::filter);
    if s.len() > 0 {
        lemma_filter_all(s.drop_last(), pred);
        assert(s.drop_last().push(s.last()) =~= s);
    }
}

/// Filtering out exactly one element is removing it.
pub proof fn lemma_filter_one_out<A>(s: Seq<A>, pred: spec_fn(A) -> bool, i: int)
    requires
        0 <= i < s.len(),
        !pred(s[i]),
        forall|j: int| 0 <= j < s.len() && j != i ==> pred(#[trigger] s[j]),
    ensures
        s.filter(pred) == s.remove(i),
    decreases s.len(),
{
    reveal(Seq::filter);
    if i == s.len() - 1 {
        lemma_filter_all(s.drop_last(), pred);
        assert(s.remove(i) =~= s.drop_last());
    } else {
        lemma_filter_one_out(s.drop_last(), pred, i);
        assert(s.drop_last().remove(i).push(s.last()) =~= s.remove(i));
    }
}

} // verus!
