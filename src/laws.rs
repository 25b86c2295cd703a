//! What holds of a whole run of pulls on a `Flatten`, stated over the
//! single-pull steps that `Flatten::next` and `Flatten::next_back` follow.
use crate::flatten::{back_step, front_step};
use vstd::prelude::*;
use vstd::seq_lib::lemma_flatten_concat;

verus! {

/// The outcome of pulling from the items `s` once per entry of `pattern`,
/// from the back where the entry is `true` and from the front where it is
/// `false`: the items pulled from the front, in the order pulled; those
/// pulled from the back, in the order pulled; and the items left.
pub open spec fn run<T>(s: Seq<T>, pattern: Seq<bool>) -> (Seq<T>, Seq<T>, Seq<T>)
    decreases pattern.len(),
{
    if pattern.len() == 0 {
        (Seq::empty(), Seq::empty(), s)
    } else {
        let from_back = pattern[0];
        let step = if from_back {
            back_step(s)
        } else {
            front_step(s)
        };
        let rest = run(step.1, pattern.drop_first());
        let got = match step.0 {
            Some(x) => seq![x],
            None => Seq::empty(),
        };
        if from_back {
            (rest.0, got + rest.1, rest.2)
        } else {
            (got + rest.0, rest.1, rest.2)
        }
    }
}

/// `n` pulls, all from the front.
pub open spec fn fronts_only(n: nat) -> Seq<bool> {
    Seq::new(n, |i: int| false)
}

/// `n` pulls, all from the back.
pub open spec fn backs_only(n: nat) -> Seq<bool> {
    Seq::new(n, |i: int| true)
}

proof fn lemma_reverse_cons<T>(x: T, s: Seq<T>)
    ensures
        (seq![x] + s).reverse() == s.reverse().push(x),
{
    assert((seq![x] + s).reverse() =~= s.reverse().push(x));
}

/// Whatever the order of front and back pulls, the items pulled from the
/// front, then the items left, then the items pulled from the back in
/// reverse order of pulling, make up the items there were at the start.
/// Once there have been at least as many pulls as items, none is left, and
/// the front list followed by the reversed back list is the whole sequence.
pub proof fn lemma_interleaved_pulls<T>(s: Seq<T>, pattern: Seq<bool>)
    ensures
        run(s, pattern).0 + run(s, pattern).2 + run(s, pattern).1.reverse() == s,
        pattern.len() >= s.len() ==> run(s, pattern).2.len() == 0,
        pattern.len() >= s.len() ==> run(s, pattern).0 + run(s, pattern).1.reverse() == s,
    decreases pattern.len(),
{
    if pattern.len() == 0 {
        assert(s + Seq::<T>::empty().reverse() =~= s);
        assert(Seq::<T>::empty() + s =~= s);
    } else {
        let step = if pattern[0] {
            back_step(s)
        } else {
            front_step(s)
        };
        let rest = run(step.1, pattern.drop_first());
        lemma_interleaved_pulls(step.1, pattern.drop_first());
        if s.len() > 0 {
            if pattern[0] {
                lemma_reverse_cons(s.last(), rest.1);
                assert(s =~= s.drop_last().push(s.last()));
                assert(rest.0 + rest.2 + (seq![s.last()] + rest.1).reverse() =~= s);
            } else {
                assert(s =~= seq![s[0]] + s.drop_first());
                assert(seq![s[0]] + rest.0 + rest.2 + rest.1.reverse() =~= seq![s[0]] + (rest.0
                    + rest.2 + rest.1.reverse()));
            }
        } else {
            assert(Seq::<T>::empty() + rest.0 =~= rest.0);
            assert(Seq::<T>::empty() + rest.1 =~= rest.1);
        }
        if pattern.len() >= s.len() {
            assert(run(s, pattern).0 + run(s, pattern).2 =~= run(s, pattern).0);
        }
    }
}

proof fn lemma_front_pulls<T>(s: Seq<T>, n: nat)
    requires
        n <= s.len(),
    ensures
        run(s, fronts_only(n)) == (s.take(n as int), Seq::<T>::empty(), s.skip(n as int)),
    decreases n,
{
    if n == 0 {
        assert(s.take(0) =~= Seq::<T>::empty());
        assert(s.skip(0) =~= s);
    } else {
        assert(fronts_only(n).drop_first() =~= fronts_only((n - 1) as nat));
        lemma_front_pulls(s.drop_first(), (n - 1) as nat);
        assert(seq![s[0]] + s.drop_first().take(n - 1) =~= s.take(n as int));
        assert(s.drop_first().skip(n - 1) =~= s.skip(n as int));
    }
}

/// Pulling only from the front, as often as there are items, yields the
/// inner sequences one after another, each in its own order, and leaves
/// nothing.
pub proof fn lemma_front_drain<T>(outer: Seq<Seq<T>>)
    ensures
        run(outer.flatten(), fronts_only(outer.flatten().len())) == (
            outer.flatten(),
            Seq::<T>::empty(),
            Seq::<T>::empty(),
        ),
{
    let s = outer.flatten();
    lemma_front_pulls(s, s.len());
    assert(s.take(s.len() as int) =~= s);
    assert(s.skip(s.len() as int) =~= Seq::<T>::empty());
}

proof fn lemma_back_pulls<T>(s: Seq<T>, n: nat)
    requires
        n <= s.len(),
    ensures
        run(s, backs_only(n)) == (
            Seq::<T>::empty(),
            s.skip(s.len() - n).reverse(),
            s.take(s.len() - n),
        ),
    decreases n,
{
    if n == 0 {
        assert(s.take(s.len() as int) =~= s);
        assert(s.skip(s.len() as int).reverse() =~= Seq::<T>::empty());
    } else {
        assert(backs_only(n).drop_first() =~= backs_only((n - 1) as nat));
        let d = s.drop_last();
        lemma_back_pulls(d, (n - 1) as nat);
        assert(d.take(d.len() - (n - 1)) =~= s.take(s.len() - n));
        lemma_reverse_cons(s.last(), d.skip(d.len() - (n - 1)).reverse());
        assert(seq![s.last()] + d.skip(d.len() - (n - 1)).reverse() =~= s.skip(
            s.len() - n,
        ).reverse());
    }
}

/// Pulling only from the back, as often as there are items, yields the
/// flattened sequence in exact reverse order, and leaves nothing.
pub proof fn lemma_back_drain<T>(outer: Seq<Seq<T>>)
    ensures
        run(outer.flatten(), backs_only(outer.flatten().len())) == (
            Seq::<T>::empty(),
            outer.flatten().reverse(),
            Seq::<T>::empty(),
        ),
{
    let s = outer.flatten();
    lemma_back_pulls(s, s.len());
    assert(s.skip(0) =~= s);
    assert(s.take(0) =~= Seq::<T>::empty());
}

/// An outer sequence with no inner sequence, or with only empty ones,
/// flattens to nothing: the first pull from either end finds no item.
pub proof fn lemma_nothing_to_flatten<T>(outer: Seq<Seq<T>>)
    requires
        forall|i: int| 0 <= i < outer.len() ==> (#[trigger] outer[i]).len() == 0,
    ensures
        outer.flatten().len() == 0,
        front_step(outer.flatten()).0 is None,
        back_step(outer.flatten()).0 is None,
    decreases outer.len(),
{
    if outer.len() > 0 {
        assert(outer[0].len() == 0);
        assert(forall|i: int|
            0 <= i < outer.drop_first().len() ==> outer.drop_first()[i] == outer[i + 1]);
        lemma_nothing_to_flatten(outer.drop_first());
    }
}

/// The first `n` front pulls depend only on the inner sequences that hold
/// the first `n` items: whatever follows them in the outer sequence, even
/// without end, is never reached. Over the first inner sequences of an
/// unbounded outer sequence, `n` front pulls yield the first `n` items of
/// its flattening.
pub proof fn lemma_front_pulls_ignore_the_rest<T>(
    first: Seq<Seq<T>>,
    rest: Seq<Seq<T>>,
    n: nat,
)
    requires
        n <= first.flatten().len(),
    ensures
        run((first + rest).flatten(), fronts_only(n)).0 == first.flatten().take(n as int),
        run((first + rest).flatten(), fronts_only(n)).0 == run(
            first.flatten(),
            fronts_only(n),
        ).0,
{
    lemma_flatten_concat(first, rest);
    let s = (first + rest).flatten();
    lemma_front_pulls(s, n);
    lemma_front_pulls(first.flatten(), n);
    assert(s.take(n as int) =~= first.flatten().take(n as int));
}

} // verus!
