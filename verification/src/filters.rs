//! What a filter keeps of a sequence that is read item by item.

use vstd::prelude::*;

verus! {

/// Where the first `i` items of `s` hold none that `pred` selects and item
/// `i` is one, item `i` is the first that the filter keeps.
pub proof fn lemma_filter_first<A>(s: Seq<A>, pred: spec_fn(A) -> bool, i: int)
    requires
        0 <= i < s.len(),
        s.take(i).filter(pred).len() == 0,
        pred(s[i]),
    ensures
        s.filter(pred).len() > 0,
        s.filter(pred)[0] == s[i],
{
    s.lemma_take_succ_push(i);
    s.take(i).lemma_filter_push(s[i], pred);
    assert(s =~= s.take(i + 1) + s.skip(i + 1));
    Seq::filter_distributes_over_add(s.take(i + 1), s.skip(i + 1), pred);
}

/// What the filter keeps of the first `i + 1` items is what it keeps of the
/// first `i`, followed by item `i` where `pred` selects it.
pub proof fn lemma_filter_step<A>(s: Seq<A>, pred: spec_fn(A) -> bool, i: int)
    requires
        0 <= i < s.len(),
    ensures
        s.take(i + 1).filter(pred) == if pred(s[i]) {
            s.take(i).filter(pred).push(s[i])
        } else {
            s.take(i).filter(pred)
        },
{
    s.lemma_take_succ_push(i);
    s.take(i).lemma_filter_push(s[i], pred);
}

/// Where item `i` of `s` is one that `pred` selects and the items after it
/// hold none, item `i` is the last that the filter keeps.
pub proof fn lemma_filter_last<A>(s: Seq<A>, pred: spec_fn(A) -> bool, i: int)
    requires
        0 <= i < s.len(),
        s.skip(i + 1).filter(pred).len() == 0,
        pred(s[i]),
    ensures
        s.filter(pred).len() > 0,
        s.filter(pred).last() == s[i],
{
    lemma_filter_step(s, pred, i);
    assert(s =~= s.take(i + 1) + s.skip(i + 1));
    Seq::filter_distributes_over_add(s.take(i + 1), s.skip(i + 1), pred);
}

/// Where `pred` does not select item `i` of `s`, the filter keeps of the
/// items from `i` on what it keeps of the items after `i`.
pub proof fn lemma_filter_skip_step<A>(s: Seq<A>, pred: spec_fn(A) -> bool, i: int)
    requires
        0 <= i < s.len(),
        !pred(s[i]),
    ensures
        s.skip(i).filter(pred) == s.skip(i + 1).filter(pred),
{
    let head = Seq::<A>::empty().push(s[i]);
    assert(s.skip(i) =~= head + s.skip(i + 1));
    Seq::filter_distributes_over_add(head, s.skip(i + 1), pred);
    Seq::<A>::empty().lemma_filter_push(s[i], pred);
    Seq::<A>::empty().lemma_filter_len(pred);
}

} // verus!
