//! Flattening an outer sequence without end, pulled from the front only.
use crate::flatten::cursor_items;
use std::collections::VecDeque;
use vstd::prelude::*;

verus! {

/// An outer sequence without end: the inner sequence at each position can be
/// produced on demand.
pub trait InnerSource<T> {
    /// The inner sequence at position `i`.
    spec fn inner_spec(&self, i: nat) -> Seq<T>;

    /// Produces the inner sequence at position `i`.
    fn inner_at(&self, i: u64) -> (r: Vec<T>)
        ensures
            r@ == self.inner_spec(i as nat),
    ;
}

/// The items of the first `n` inner sequences of `g`, one after another.
pub open spec fn flat_prefix<T, G: InnerSource<T>>(g: G, n: nat) -> Seq<T>
    decreases n,
{
    if n == 0 {
        Seq::empty()
    } else {
        flat_prefix(g, (n - 1) as nat) + g.inner_spec((n - 1) as nat)
    }
}

/// Flattens the unbounded outer sequence `G`, pulling from the front.
/// Only as many inner sequences are produced as the pulls so far needed.
pub struct Unbounded<T, G: InnerSource<T>> {
    source: G,
    pos: u64,
    front_iter: Option<VecDeque<T>>,
    pulled: Ghost<Seq<T>>,
}

impl<T, G: InnerSource<T>> View for Unbounded<T, G> {
    type V = Seq<T>;

    /// The items pulled so far, in order.
    closed spec fn view(&self) -> Seq<T> {
        self.pulled@
    }
}

impl<T, G: InnerSource<T>> Unbounded<T, G> {
    /// The outer sequence being flattened.
    pub closed spec fn source(&self) -> G {
        self.source
    }

    /// How many inner sequences have been produced.
    pub closed spec fn outer_pos(&self) -> nat {
        self.pos as nat
    }

    /// The items of the last inner sequence produced that are not pulled yet.
    pub closed spec fn open_items(&self) -> Seq<T> {
        cursor_items(self.front_iter)
    }

    /// The items pulled so far and those still open make up exactly the
    /// inner sequences produced so far.
    pub open spec fn wf(&self) -> bool {
        self@ + self.open_items() == flat_prefix(self.source(), self.outer_pos())
    }

    /// An adaptor over `source` that has produced nothing yet.
    pub fn new(source: G) -> (r: Self)
        ensures
            r.wf(),
            r.source() == source,
            r@ == Seq::<T>::empty(),
            r.outer_pos() == 0,
    {
        let r = Unbounded { source, pos: 0, front_iter: None, pulled: Ghost(Seq::empty()) };
        assert(r@ + r.open_items() =~= Seq::<T>::empty());
        r
    }

    /// Pulls the next item from the front. Some item is still to come: an
    /// open one, or one in an inner sequence not produced yet, at a position
    /// that `u64` can count past.
    pub fn next(&mut self) -> (r: Option<T>)
        requires
            old(self).wf(),
            old(self).open_items().len() > 0 || exists|j: nat|
                old(self).outer_pos() <= j && j + 1 < u64::MAX && (#[trigger] old(
                    self,
                ).source().inner_spec(j)).len() > 0,
        ensures
            final(self).wf(),
            final(self).source() == old(self).source(),
            old(self).outer_pos() <= final(self).outer_pos(),
            forall|j: nat|
                old(self).outer_pos() <= j && (#[trigger] old(self).source().inner_spec(j)).len()
                    > 0 ==> final(self).outer_pos() <= j + 1,
            r is Some,
            final(self)@ == old(self)@.push(r->0),
    {
        let ghost j: nat = if self.open_items().len() > 0 {
            self.outer_pos()
        } else {
            choose|j: nat|
                self.outer_pos() <= j && j + 1 < u64::MAX && (#[trigger] self.source().inner_spec(
                    j,
                )).len() > 0
        };
        loop
            invariant
                self.wf(),
                self.source() == old(self).source(),
                self@ == old(self)@,
                old(self).outer_pos() <= self.outer_pos(),
                old(self).outer_pos() < self.outer_pos() ==> self.open_items()
                    == self.source().inner_spec((self.outer_pos() - 1) as nat),
                forall|k: nat|
                    old(self).outer_pos() <= k && k + 1 < self.outer_pos() ==> (
                    #[trigger] self.source().inner_spec(k)).len() == 0,
                self.open_items().len() > 0 || (self.outer_pos() <= j && j + 1 < u64::MAX
                    && self.source().inner_spec(j).len() > 0),
            decreases j + 1 - self.outer_pos(),
        {
            let ghost start = self@ + self.open_items();
            let cur = self.front_iter.take();
            if let Some(mut front_iter) = cur {
                let x = front_iter.pop_front();
                if let Some(i) = x {
                    self.front_iter = Some(front_iter);
                    self.pulled = Ghost(self.pulled@.push(i));
                    assert(self@ + self.open_items() =~= start);
                    return Some(i);
                }
            }
            let inner = self.source.inner_at(self.pos);
            let ghost before = self.outer_pos();
            self.pos = self.pos + 1;
            let opened = crate::flatten::into_deque(inner);
            self.front_iter = Some(opened);
            assert(self@ + self.open_items() =~= flat_prefix(self.source(), self.outer_pos()));
            proof {
                if before == j {
                    assert(self.open_items().len() > 0);
                }
            }
        }
    }
}

proof fn lemma_flat_prefix_grows<T, G: InnerSource<T>>(g: G, m1: nat, m2: nat)
    requires
        m1 <= m2,
    ensures
        flat_prefix(g, m1).len() <= flat_prefix(g, m2).len(),
        flat_prefix(g, m2).take(flat_prefix(g, m1).len() as int) == flat_prefix(g, m1),
    decreases m2,
{
    if m1 == m2 {
        assert(flat_prefix(g, m2).take(flat_prefix(g, m1).len() as int) =~= flat_prefix(g, m1));
    } else {
        let m = (m2 - 1) as nat;
        lemma_flat_prefix_grows(g, m1, m);
        assert(flat_prefix(g, m2).take(flat_prefix(g, m1).len() as int) =~= flat_prefix(
            g,
            m,
        ).take(flat_prefix(g, m1).len() as int));
    }
}

/// However far the outer sequence is taken, the items pulled so far are the
/// first items of its flattening: after `n` pulls, exactly the first `n`
/// items of the concatenation of all inner sequences, in order.
pub proof fn lemma_pulled_items_come_first<T, G: InnerSource<T>>(u: Unbounded<T, G>, m: nat)
    requires
        u.wf(),
        u@.len() <= flat_prefix(u.source(), m).len(),
    ensures
        u@ == flat_prefix(u.source(), m).take(u@.len() as int),
{
    let g = u.source();
    let p = u.outer_pos();
    let n = u@.len() as int;
    assert(flat_prefix(g, p).take(n) =~= u@);
    if p <= m {
        lemma_flat_prefix_grows(g, p, m);
        assert(flat_prefix(g, m).take(n) =~= flat_prefix(g, p).take(n));
    } else {
        lemma_flat_prefix_grows(g, m, p);
        assert(flat_prefix(g, m).take(n) =~= flat_prefix(g, p).take(n));
    }
}

/// The outer sequence whose inner sequence at position `i` is `0..i`.
pub struct Ranges;

impl InnerSource<u64> for Ranges {
    open spec fn inner_spec(&self, i: nat) -> Seq<u64> {
        Seq::new(i, |k: int| k as u64)
    }

    fn inner_at(&self, i: u64) -> (r: Vec<u64>) {
        let mut r: Vec<u64> = Vec::new();
        let mut k: u64 = 0;
        while k < i
            invariant
                k <= i,
                r@ == Seq::new(k as nat, |m: int| m as u64),
            decreases i - k,
        {
            r.push(k);
            k = k + 1;
            assert(r@ =~= Seq::new(k as nat, |m: int| m as u64));
        }
        r
    }
}

} // verus!
