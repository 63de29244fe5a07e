use vstd::prelude::*;

verus! {

/// Threads a state through the items in order; the first step that fails
/// stops the fold with its error.
pub open spec fn try_fold<S, A, E>(init: S, items: Seq<A>, step: spec_fn(S, A) -> Result<S, E>) -> Result<S, E>
    decreases items.len(),
{
    if items.len() == 0 {
        Ok(init)
    } else {
        match try_fold(init, items.drop_last(), step) {
            Err(e) => Err(e),
            Ok(s) => step(s, items.last()),
        }
    }
}

/// One more item: the fold over the first `k + 1` items is a step from the
/// fold over the first `k`.
pub proof fn lemma_try_fold_next<S, A, E>(init: S, items: Seq<A>, step: spec_fn(S, A) -> Result<S, E>, k: int)
    requires
        0 <= k < items.len(),
    ensures
        try_fold(init, items.take(k + 1), step) == match try_fold(init, items.take(k), step) {
            Err(e) => Err(e),
            Ok(s) => step(s, items[k]),
        },
{
    assert(items.take(k + 1).drop_last() =~= items.take(k));
}

/// A fold that failed on a prefix fails the same way on the whole sequence.
pub proof fn lemma_try_fold_err<S, A, E>(init: S, items: Seq<A>, step: spec_fn(S, A) -> Result<S, E>, k: int)
    requires
        0 <= k <= items.len(),
        try_fold(init, items.take(k), step) is Err,
    ensures
        try_fold(init, items, step) == try_fold(init, items.take(k), step),
    decreases items.len() - k,
{
    if k == items.len() {
        assert(items.take(k) =~= items);
    } else {
        lemma_try_fold_next(init, items, step, k);
        lemma_try_fold_err(init, items, step, k + 1);
    }
}

/// The fold over all of a sequence is the fold over its full prefix.
pub proof fn lemma_try_fold_all<S, A, E>(init: S, items: Seq<A>, step: spec_fn(S, A) -> Result<S, E>)
    ensures
        try_fold(init, items.take(items.len() as int), step) == try_fold(init, items, step),
{
    assert(items.take(items.len() as int) =~= items);
}

/// A property that the initial state has and that every successful step keeps
/// holds of the result of every successful fold.
pub proof fn lemma_try_fold_keeps<S, A, E>(
    init: S,
    items: Seq<A>,
    step: spec_fn(S, A) -> Result<S, E>,
    inv: spec_fn(S) -> bool,
)
    requires
        inv(init),
        forall|s: S, a: A| inv(s) && (#[trigger] step(s, a)) is Ok ==> inv(step(s, a)->Ok_0),
    ensures
        try_fold(init, items, step) matches Ok(s) ==> inv(s),
    decreases items.len(),
{
    if items.len() > 0 {
        lemma_try_fold_keeps(init, items.drop_last(), step, inv);
    }
}

} // verus!
