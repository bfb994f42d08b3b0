//! Sequences of steps that several threads take.

use vstd::prelude::*;

verus! {

/// The steps of `threads` with no overlap at all: those of the first thread, then
/// those of the next, and so on.
pub open spec fn one_by_one<T>(threads: Seq<Seq<T>>) -> Seq<T>
    decreases threads.len(),
{
    if threads.len() == 0 {
        Seq::empty()
    } else {
        one_by_one(threads.drop_last()) + threads.last()
    }
}

/// In `steps` the steps of `threads` come in some order: each step of each thread is
/// there once, and nothing else is.
pub open spec fn interleaves<T>(threads: Seq<Seq<T>>, steps: Seq<T>) -> bool {
    steps.to_multiset() == one_by_one(threads).to_multiset()
}

/// What holds of every step of every thread holds of every step in any order of
/// them, and there are as many steps in one order as in another.
pub proof fn lemma_interleaved<T>(threads: Seq<Seq<T>>, steps: Seq<T>, good: spec_fn(T) -> bool)
    requires
        interleaves(threads, steps),
        forall|t: int, i: int|
            0 <= t < threads.len() && 0 <= i < threads[t].len() ==> good(
                #[trigger] threads[t][i],
            ),
    ensures
        steps.len() == one_by_one(threads).len(),
        forall|i: int| 0 <= i < steps.len() ==> good(#[trigger] steps[i]),
{
    let all = one_by_one(threads);
    lemma_one_by_one(threads, good);
    steps.to_multiset_ensures();
    all.to_multiset_ensures();
    assert forall|i: int| 0 <= i < steps.len() implies good(#[trigger] steps[i]) by {
        assert(steps.contains(steps[i]));
        assert(all.to_multiset().count(steps[i]) > 0);
        assert(all.contains(steps[i]));
    }
}

/// What holds of every step of every thread holds of all of them one by one.
proof fn lemma_one_by_one<T>(threads: Seq<Seq<T>>, good: spec_fn(T) -> bool)
    requires
        forall|t: int, i: int|
            0 <= t < threads.len() && 0 <= i < threads[t].len() ==> good(
                #[trigger] threads[t][i],
            ),
    ensures
        forall|i: int|
            0 <= i < one_by_one(threads).len() ==> good(#[trigger] one_by_one(threads)[i]),
    decreases threads.len(),
{
    if threads.len() > 0 {
        let earlier = threads.drop_last();
        assert forall|t: int, i: int|
            0 <= t < earlier.len() && 0 <= i < earlier[t].len() implies good(
            #[trigger] earlier[t][i],
        ) by {
            assert(good(threads[t][i]));
        }
        lemma_one_by_one(earlier, good);
        let n = one_by_one(earlier).len();
        assert forall|i: int| 0 <= i < one_by_one(threads).len() implies good(
            #[trigger] one_by_one(threads)[i],
        ) by {
            if i >= n {
                assert(good(threads[threads.len() - 1][i - n]));
            }
        }
    }
}

} // verus!
