//! Building a sequence from a fixed list of elements, or from one element
//! and a repeat count, with its storage sized up front.
use vstd::prelude::*;

verus! {

/// A sequence of exactly `elements`, in order. Its storage is reserved for
/// the element count, which is known at compile time, before any push.
pub fn avec<T: Copy, const N: usize>(elements: [T; N]) -> (r: Vec<T>)
    ensures
        r@ == elements@,
{
    let mut vs: Vec<T> = Vec::with_capacity(N);
    let mut i: usize = 0;
    while i < N
        invariant
            elements@.len() == N,
            i <= N,
            vs@ == elements@.take(i as int),
        decreases N - i,
    {
        vs.push(elements[i]);
        i = i + 1;
        assert(vs@ =~= elements@.take(i as int));
    }
    assert(vs@ =~= elements@);
    vs
}

/// A sequence of `count` slots, each holding `element` or a clone of it.
/// `element` is given once; it need not be something that can be produced
/// again.
pub fn avec_repeat<T: Clone>(element: T, count: usize) -> (r: Vec<T>)
    ensures
        r@.len() == count,
        forall|i: int| 0 <= i < count ==> cloned(element, #[trigger] r@[i]),
{
    let mut vs: Vec<T> = Vec::new();
    vs.resize(count, element);
    vs
}

} // verus!
