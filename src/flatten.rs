use std::collections::VecDeque;
use vstd::prelude::*;

verus! {

/// The items of an optional open cursor; an absent cursor holds none.
pub open spec fn cursor_items<T>(c: Option<VecDeque<T>>) -> Seq<T> {
    match c {
        Some(d) => d@,
        None => Seq::empty(),
    }
}

/// The inner sequences of an outer sequence, each as its items.
pub open spec fn inner_views<T>(outer: Seq<Vec<T>>) -> Seq<Seq<T>> {
    outer.map_values(|v: Vec<T>| v@)
}

/// One pull from the front of the items `s`: the item pulled, if any, and
/// the items left.
pub open spec fn front_step<T>(s: Seq<T>) -> (Option<T>, Seq<T>) {
    if s.len() == 0 {
        (None, s)
    } else {
        (Some(s[0]), s.drop_first())
    }
}

/// One pull from the back of the items `s`: the item pulled, if any, and
/// the items left.
pub open spec fn back_step<T>(s: Seq<T>) -> (Option<T>, Seq<T>) {
    if s.len() == 0 {
        (None, s)
    } else {
        (Some(s.last()), s.drop_last())
    }
}

/// Flattens a sequence of sequences: yields every item of every inner
/// sequence, inner sequences in outer order and each in its own order.
///
/// Items are pulled from the front with `next` and from the back with
/// `next_back`, in any interleaving. At most one inner sequence is open at
/// each end; when the outer sequence runs dry at one end, that end takes its
/// items from the inner sequence opened at the other end.
pub struct Flatten<T> {
    outer: VecDeque<Vec<T>>,
    front_iter: Option<VecDeque<T>>,
    back_iter: Option<VecDeque<T>>,
}

impl<T> View for Flatten<T> {
    type V = Seq<T>;

    /// The items still to come, in front-to-back order.
    closed spec fn view(&self) -> Seq<T> {
        cursor_items(self.front_iter) + inner_views(self.outer@).flatten() + cursor_items(
            self.back_iter,
        )
    }
}

/// Moves the items of `v` into a double-ended queue, keeping their order.
pub(crate) fn into_deque<T>(v: Vec<T>) -> (r: VecDeque<T>)
    ensures
        r@ == v@,
{
    let mut v = v;
    let mut r: VecDeque<T> = VecDeque::new();
    let ghost whole = v@;
    while v.len() > 0
        invariant
            v@ + r@ == whole,
        decreases v.len(),
    {
        let x = v.pop().unwrap();
        r.push_front(x);
        assert(v@ + r@ =~= whole);
    }
    assert(r@ =~= whole);
    r
}


impl<T> Flatten<T> {
    /// An adaptor over `iter`, with no inner sequence open yet.
    pub fn new(iter: VecDeque<Vec<T>>) -> (r: Self)
        ensures
            r@ == inner_views(iter@).flatten(),
    {
        Flatten { outer: iter, front_iter: None, back_iter: None }
    }

    /// Pulls the next item from the front, or `None` once no item is left.
    pub fn next(&mut self) -> (r: Option<T>)
        ensures
            (r, final(self)@) == front_step(old(self)@),
    {
        loop
            invariant
                self@ == old(self)@,
            decreases self.outer@.len(),
        {
            let cur = self.front_iter.take();
            if let Some(mut front_iter) = cur {
                let x = front_iter.pop_front();
                if let Some(i) = x {
                    self.front_iter = Some(front_iter);
                    assert(old(self)@ =~= seq![i] + self@);
                    return Some(i);
                }
            }
            assert(self@ == old(self)@);
            let ghost rest = inner_views(self.outer@);
            let o = self.outer.pop_front();
            if let Some(front_iter) = o {
                assert(rest =~= seq![front_iter@] + inner_views(self.outer@));
                assert(rest.drop_first() =~= inner_views(self.outer@));
                self.front_iter = Some(into_deque(front_iter));
                assert(self@ =~= old(self)@);
            } else {
                assert(rest =~= Seq::<Seq<T>>::empty());
                let r = match self.back_iter.as_mut() {
                    Some(back_iter) => back_iter.pop_front(),
                    None => None,
                };
                assert(r is Some ==> old(self)@ =~= seq![r->0] + self@);
                assert(r is None ==> self@ =~= old(self)@);
                return r;
            }
        }
    }

    /// Pulls the next item from the back, or `None` once no item is left.
    pub fn next_back(&mut self) -> (r: Option<T>)
        ensures
            (r, final(self)@) == back_step(old(self)@),
    {
        loop
            invariant
                self@ == old(self)@,
            decreases self.outer@.len(),
        {
            let cur = self.back_iter.take();
            if let Some(mut back_iter) = cur {
                let x = back_iter.pop_back();
                if let Some(i) = x {
                    self.back_iter = Some(back_iter);
                    assert(old(self)@ =~= self@.push(i));
                    return Some(i);
                }
            }
            assert(self@ == old(self)@);
            let ghost rest = inner_views(self.outer@);
            let o = self.outer.pop_back();
            if let Some(back_iter) = o {
                assert(rest =~= inner_views(self.outer@).push(back_iter@));
                proof { inner_views(self.outer@).lemma_flatten_push(back_iter@); }
                self.back_iter = Some(into_deque(back_iter));
                assert(self@ =~= old(self)@);
            } else {
                assert(rest =~= Seq::<Seq<T>>::empty());
                let r = match self.front_iter.as_mut() {
                    Some(front_iter) => front_iter.pop_back(),
                    None => None,
                };
                assert(r is Some ==> old(self)@ =~= self@.push(r->0));
                assert(r is None ==> self@ =~= old(self)@);
                return r;
            }
        }
    }
    /// Pulls every remaining item from the front, in order.
    pub fn collect(self) -> (r: Vec<T>)
        ensures
            r@ == self@,
    {
        let mut it = self;
        let ghost whole = it@;
        let mut r: Vec<T> = Vec::new();
        loop
            invariant
                r@ + it@ == whole,
                whole == self@,
            decreases it@.len(),
        {
            let x = it.next();
            match x {
                Some(i) => {
                    r.push(i);
                    assert(r@ + it@ =~= whole);
                },
                None => {
                    assert(r@ =~= whole);
                    return r;
                },
            }
        }
    }

    /// Pulls every remaining item from the back, so in reverse order.
    pub fn collect_rev(self) -> (r: Vec<T>)
        ensures
            r@ == self@.reverse(),
    {
        let mut it = self;
        let ghost whole = it@;
        let mut r: Vec<T> = Vec::new();
        loop
            invariant
                it@ + r@.reverse() == whole,
                whole == self@,
            decreases it@.len(),
        {
            let ghost before = it@;
            let x = it.next_back();
            match x {
                Some(i) => {
                    let ghost done = r@;
                    r.push(i);
                    assert(r@.reverse() =~= seq![i] + done.reverse());
                    assert(it@ + r@.reverse() =~= whole);
                },
                None => {
                    assert(r@.reverse() =~= whole);
                    assert(r@ =~= whole.reverse());
                    return r;
                },
            }
        }
    }

    /// The number of items that remain, found by pulling them from the front.
    pub fn count(self) -> (r: usize)
        requires
            self@.len() <= usize::MAX,
        ensures
            r == self@.len(),
    {
        let mut it = self;
        let ghost whole = it@;
        let mut n: usize = 0;
        loop
            invariant
                n + it@.len() == whole.len(),
                whole.len() <= usize::MAX,
                whole == self@,
            decreases it@.len(),
        {
            let x = it.next();
            match x {
                Some(_) => {
                    n = n + 1;
                },
                None => {
                    return n;
                },
            }
        }
    }
}

/// Flattens the sequence of sequences `iter`.
pub fn custom_flatten<T>(iter: Vec<Vec<T>>) -> (r: Flatten<T>)
    ensures
        r@ == inner_views(iter@).flatten(),
{
    Flatten::new(into_deque(iter))
}

/// Flattening as a method of a sequence of sequences.
pub trait IteratorExt<T>: Sized {
    /// The inner sequences, in order, each as its items.
    spec fn nested(&self) -> Seq<Seq<T>>;

    /// Flattens `self`.
    fn custom_flatten(self) -> (r: Flatten<T>)
        ensures
            r@ == self.nested().flatten(),
    ;
}

impl<T> IteratorExt<T> for Vec<Vec<T>> {
    open spec fn nested(&self) -> Seq<Seq<T>> {
        inner_views(self@)
    }

    fn custom_flatten(self) -> (r: Flatten<T>) {
        custom_flatten(self)
    }
}

impl<T> IteratorExt<T> for VecDeque<Vec<T>> {
    open spec fn nested(&self) -> Seq<Seq<T>> {
        inner_views(self@)
    }

    fn custom_flatten(self) -> (r: Flatten<T>) {
        Flatten::new(self)
    }
}

} // verus!
