use vstd::prelude::*;

use crate::demand::Demand;
use crate::provider::{answered, spent_frame, Frame};

verus! {

/// The handle that a computation is polled with: the scheduler's own wake
/// handle, and the chain of providers that the computations above it have
/// lent for this poll, outermost first.
///
/// It lives for one poll. Waking goes to the scheduler's handle unchanged; a
/// clone of the handle is the scheduler's handle alone, without the chain.
pub struct ProviderWaker<'a, W, V> {
    waker: &'a W,
    frames: Vec<Frame<'a, V>>,
}

/// Index of the nearest link of `chain` (the one pushed last) that answers `d`,
/// or -1 when none does.
pub open spec fn nearest<'a, V>(chain: Seq<Frame<'a, V>>, d: Demand<'a, V>) -> int
    decreases chain.len(),
{
    if chain.len() == 0 {
        -1
    } else if chain.last().answers(d) {
        chain.len() - 1
    } else {
        nearest(chain.drop_last(), d)
    }
}

/// The chain after a poll in which nothing but the taking of owned values
/// happened: the same links, each as it was or spent.
pub open spec fn only_consumed<'a, V>(before: Seq<Frame<'a, V>>, after: Seq<Frame<'a, V>>) -> bool {
    &&& after.len() == before.len()
    &&& forall|i: int|
        0 <= i < before.len() ==> #[trigger] after[i] == before[i] || after[i] == spent_frame(
            before[i],
        )
}

/// The chain that answering `d` leaves behind.
pub open spec fn after_demand<'a, V>(chain: Seq<Frame<'a, V>>, d: Demand<'a, V>) -> Seq<Frame<'a, V>> {
    let i = nearest(chain, d);
    if i < 0 {
        chain
    } else {
        chain.update(i, spent_frame(chain[i]))
    }
}

/// The demand `d` once the chain has answered it.
pub open spec fn demand_after<'a, V>(chain: Seq<Frame<'a, V>>, d: Demand<'a, V>) -> Demand<'a, V> {
    let i = nearest(chain, d);
    if i < 0 {
        d
    } else {
        answered(chain[i].key, chain[i].provision)
    }
}

/// `nearest` stays within the chain, and finds a link that answers.
pub proof fn lemma_nearest_bounds<'a, V>(chain: Seq<Frame<'a, V>>, d: Demand<'a, V>)
    ensures
        -1 <= nearest(chain, d) < chain.len(),
        nearest(chain, d) >= 0 ==> chain[nearest(chain, d)].answers(d),
        forall|j: int| nearest(chain, d) < j < chain.len() ==> !(#[trigger] chain[j]).answers(d),
    decreases chain.len(),
{
    if chain.len() > 0 && !chain.last().answers(d) {
        lemma_nearest_bounds(chain.drop_last(), d);
        assert forall|j: int| nearest(chain, d) < j < chain.len() implies !(
        #[trigger] chain[j]).answers(d) by {
            if j < chain.len() - 1 {
                assert(chain[j] == chain.drop_last()[j]);
            }
        }
    }
}

/// The link at `j` is the nearest that answers `d` when it answers and no
/// link after it does.
pub proof fn lemma_nearest_is<'a, V>(chain: Seq<Frame<'a, V>>, d: Demand<'a, V>, j: int)
    requires
        0 <= j < chain.len(),
        chain[j].answers(d),
        forall|k: int| j < k < chain.len() ==> !(#[trigger] chain[k]).answers(d),
    ensures
        nearest(chain, d) == j,
{
    lemma_nearest_bounds(chain, d);
    let n = nearest(chain, d);
    if n < j {
        assert(!chain[j].answers(d));
    } else if n > j {
        assert(!chain[n].answers(d));
    }
}

/// No link is the nearest that answers `d` when none answers it.
pub proof fn lemma_nearest_none<'a, V>(chain: Seq<Frame<'a, V>>, d: Demand<'a, V>)
    requires
        forall|k: int| 0 <= k < chain.len() ==> !(#[trigger] chain[k]).answers(d),
    ensures
        nearest(chain, d) == -1,
{
    lemma_nearest_bounds(chain, d);
    let n = nearest(chain, d);
    if n >= 0 {
        assert(!chain[n].answers(d));
    }
}

impl<'a, W, V> ProviderWaker<'a, W, V> {
    /// The scheduler's handle.
    pub closed spec fn handle(&self) -> &'a W {
        self.waker
    }

    /// The links lent for this poll, outermost first.
    pub closed spec fn chain(&self) -> Seq<Frame<'a, V>> {
        self.frames@
    }

    /// The handle for a poll that no computation has lent anything to.
    pub fn new(waker: &'a W) -> (cx: Self)
        ensures
            cx.handle() == waker,
            cx.chain() == Seq::<Frame<'a, V>>::empty(),
    {
        ProviderWaker { waker, frames: Vec::new() }
    }

    /// The scheduler's handle, which every wake goes to.
    pub fn waker(&self) -> (w: &'a W)
        ensures
            w == self.handle(),
    {
        self.waker
    }

    /// A clone of the scheduler's handle, with the chain left behind: what is
    /// lent for a poll does not outlive it.
    pub fn clone_waker(&self) -> (w: W) where W: Clone
        ensures
            cloned(*self.handle(), w),
    {
        self.waker.clone()
    }

    /// The number of links.
    pub fn depth(&self) -> (n: usize)
        ensures
            n == self.chain().len(),
    {
        self.frames.len()
    }

    /// Lends a link for the rest of the poll, nearer than all others.
    pub fn push(&mut self, frame: Frame<'a, V>)
        ensures
            final(self).handle() == old(self).handle(),
            final(self).chain() == old(self).chain().push(frame),
    {
        self.frames.push(frame);
    }

    /// Takes back the nearest link.
    pub fn pop(&mut self) -> (frame: Option<Frame<'a, V>>)
        ensures
            final(self).handle() == old(self).handle(),
            old(self).chain().len() == 0 ==> frame is None && final(self).chain() == old(self).chain(),
            old(self).chain().len() > 0 ==> frame == Some(old(self).chain().last())
                && final(self).chain() == old(self).chain().drop_last(),
    {
        self.frames.pop()
    }

    /// The link at `i`, counted from the outermost.
    pub fn link(&self, i: usize) -> (f: &Frame<'a, V>)
        requires
            i < self.chain().len(),
        ensures
            *f == self.chain()[i as int],
    {
        &self.frames[i]
    }

    /// The index of the nearest link that answers `demand`, if any.
    pub fn nearest_provider(&self, demand: &Demand<'a, V>) -> (r: Option<usize>)
        ensures
            r matches Some(i) ==> i == nearest(self.chain(), *demand),
            r is None ==> nearest(self.chain(), *demand) == -1,
    {
        let mut i: usize = self.frames.len();
        assert(self.frames@.take(i as int) == self.frames@);
        while i > 0
            invariant
                i <= self.frames@.len(),
                nearest(self.frames@, *demand) == nearest(self.frames@.take(i as int), *demand),
            decreases i,
        {
            let f = &self.frames[i - 1];
            assert(self.frames@.take(i as int).drop_last() == self.frames@.take(i - 1));
            if f.would_answer(demand) {
                return Some(i - 1);
            }
            i = i - 1;
        }
        None
    }

    /// Offers `demand` to the links, nearest first, until one answers it.
    pub fn provide(&mut self, demand: &mut Demand<'a, V>)
        ensures
            final(self).handle() == old(self).handle(),
            final(self).chain() == after_demand(old(self).chain(), *old(demand)),
            *final(demand) == demand_after(old(self).chain(), *old(demand)),
    {
        proof {
            lemma_nearest_bounds(self.chain(), *demand);
        }
        match self.nearest_provider(demand) {
            Some(i) => {
                self.frames[i].provide(demand);
                assert(self.frames@ == old(self).frames@.update(i as int, spent_frame(old(self).frames@[i as int])));
            },
            None => {},
        }
    }
}

} // verus!
