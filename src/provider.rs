use vstd::prelude::*;

use crate::demand::{Demand, TypeKey};
use crate::waker::{only_consumed, ProviderWaker};

verus! {

/// Offers a borrow of a value: answers by-reference demands for its key, as
/// often as asked, and never a by-value demand.
pub struct ProvideRef<'a, T>(pub &'a T);

/// Offers one owned value: answers the first by-value demand for its key, and
/// is empty from then on.
pub struct ProvideValue<T>(pub Option<T>);

/// One of the two forms of provider.
pub enum Provision<'a, V> {
    Ref(ProvideRef<'a, V>),
    Value(ProvideValue<V>),
}

/// A link of the chain: a provider together with the key its value is offered
/// under.
pub struct Frame<'a, V> {
    pub key: TypeKey,
    pub provision: Provision<'a, V>,
}

/// Whether a provider of `key` holding `provision` answers the demand `d`.
pub open spec fn answers<'a, V>(key: TypeKey, provision: Provision<'a, V>, d: Demand<'a, V>) -> bool {
    &&& !d.is_answered()
    &&& d.spec_key() == key
    &&& match (provision, d) {
        (Provision::Ref(_), Demand::ByRef { .. }) => true,
        (Provision::Value(p), Demand::ByValue { .. }) => p.0 is Some,
        _ => false,
    }
}

/// A demand once the provider of `key` holding `provision` has answered it.
pub open spec fn answered<'a, V>(key: TypeKey, provision: Provision<'a, V>) -> Demand<'a, V> {
    match provision {
        Provision::Ref(p) => Demand::ByRef { key, answer: Some(p.0) },
        Provision::Value(p) => Demand::ByValue { key, answer: p.0 },
    }
}

/// What is left of `provision` once it has answered a demand: a borrow stays,
/// an owned value is gone.
pub open spec fn spent<'a, V>(provision: Provision<'a, V>) -> Provision<'a, V> {
    match provision {
        Provision::Ref(p) => Provision::Ref(p),
        Provision::Value(_) => Provision::Value(ProvideValue(None)),
    }
}

/// A link as it stands once it has answered a demand.
pub open spec fn spent_frame<'a, V>(f: Frame<'a, V>) -> Frame<'a, V> {
    Frame { key: f.key, provision: spent(f.provision) }
}

impl<'a, T> ProvideRef<'a, T> {
    /// Answers `demand` with the borrow if it is an unanswered by-reference
    /// demand for `key`; leaves it as it is otherwise.
    pub fn provide(&self, key: TypeKey, demand: &mut Demand<'a, T>)
        ensures
            answers(key, Provision::Ref(*self), *old(demand)) ==> *final(demand) == answered(key, Provision::Ref(*self)),
            !answers(key, Provision::Ref(*self), *old(demand)) ==> *final(demand) == *old(demand),
    {
        if let Demand::ByRef { key: k, answer: None } = demand {
            if *k == key {
                *demand = Demand::ByRef { key, answer: Some(self.0) };
            }
        }
    }
}

impl<T> ProvideValue<T> {
    /// A provider that holds `value` until a demand takes it.
    pub fn new(value: T) -> (p: Self)
        ensures
            p.0 == Some(value),
    {
        ProvideValue(Some(value))
    }

    /// Moves the value into `demand` if it is an unanswered by-value demand for
    /// `key` and the value is still here; leaves both as they are otherwise.
    pub fn provide<'a>(&mut self, key: TypeKey, demand: &mut Demand<'a, T>)
        ensures
            answers(key, Provision::Value(*old(self)), *old(demand)) ==> {
                &&& *final(demand) == answered(key, Provision::Value(*old(self)))
                &&& final(self).0 is None
            },
            !answers(key, Provision::Value(*old(self)), *old(demand)) ==> {
                &&& *final(demand) == *old(demand)
                &&& *final(self) == *old(self)
            },
    {
        if let Demand::ByValue { key: k, answer: None } = demand {
            if *k == key && self.0.is_some() {
                *demand = Demand::ByValue { key, answer: self.0.take() };
            }
        }
    }
}

impl<'a, V> Frame<'a, V> {
    /// Whether this link answers the demand `d`.
    pub open spec fn answers(&self, d: Demand<'a, V>) -> bool {
        answers(self.key, self.provision, d)
    }

    /// Whether this link answers `demand`.
    pub fn would_answer(&self, demand: &Demand<'a, V>) -> (r: bool)
        ensures
            r == self.answers(*demand),
    {
        if demand.is_satisfied() || demand.key() != self.key {
            return false;
        }
        match (&self.provision, demand) {
            (Provision::Ref(_), Demand::ByRef { .. }) => true,
            (Provision::Value(p), Demand::ByValue { .. }) => p.0.is_some(),
            _ => false,
        }
    }

    /// A copy of this link to lend to one poll. A borrow stays here as well;
    /// an owned value moves into the copy.
    pub fn lend(&mut self) -> (f: Self)
        ensures
            f == *old(self),
            *final(self) == spent_frame(*old(self)),
    {
        match &mut self.provision {
            Provision::Ref(p) => Frame::by_ref(self.key, p.0),
            Provision::Value(p) => Frame {
                key: self.key,
                provision: Provision::Value(ProvideValue(p.0.take())),
            },
        }
    }

    /// The link that offers a borrow of `value` under `key`.
    pub open spec fn by_ref_spec(key: TypeKey, value: &'a V) -> Self {
        Frame { key, provision: Provision::Ref(ProvideRef(value)) }
    }

    /// The link that offers `value`, once, under `key`.
    pub open spec fn by_value_spec(key: TypeKey, value: V) -> Self {
        Frame { key, provision: Provision::Value(ProvideValue(Some(value))) }
    }

    /// A link that offers a borrow of `value` under `key`.
    pub fn by_ref(key: TypeKey, value: &'a V) -> (f: Self)
        ensures
            f == Self::by_ref_spec(key, value),
    {
        Frame { key, provision: Provision::Ref(ProvideRef(value)) }
    }

    /// A link that offers `value`, once, under `key`.
    pub fn by_value(key: TypeKey, value: V) -> (f: Self)
        ensures
            f == Self::by_value_spec(key, value),
    {
        Frame { key, provision: Provision::Value(ProvideValue::new(value)) }
    }

    /// Lets the provider of this link try `demand`.
    pub fn provide(&mut self, demand: &mut Demand<'a, V>)
        ensures
            final(self).key == old(self).key,
            old(self).answers(*old(demand)) ==> {
                &&& *final(demand) == answered(old(self).key, old(self).provision)
                &&& final(self).provision == spent(old(self).provision)
            },
            !old(self).answers(*old(demand)) ==> {
                &&& *final(demand) == *old(demand)
                &&& *final(self) == *old(self)
            },
    {
        match &mut self.provision {
            Provision::Ref(p) => p.provide(self.key, demand),
            Provision::Value(p) => p.provide(self.key, demand),
        }
    }
}

/// The outcome of one poll of a computation.
#[derive(Debug, PartialEq, Eq)]
pub enum Poll<T> {
    /// The computation has finished with this result.
    Ready(T),
    /// The computation waits to be woken and polled again.
    Pending,
}

/// A computation that a scheduler drives forward by polling it.
///
/// Each poll gets the handle of that poll: the scheduler's wake handle and the
/// chain of values that the computations above lend for it.
pub trait Computation<V>: Sized {
    /// The scheduler's wake handle that the computation is polled with.
    type Waker;

    type Output;

    /// What one poll of `self` can come to: polled with the wake handle
    /// `handle` and the chain `before`, it leaves the computation as
    /// `after_self`, hands back the chain `after`, and returns `r`. A
    /// computation that states nothing more keeps the default, which holds of
    /// every poll; where the computation is generic, nothing is assumed of it.
    open spec fn polled<'a>(
        &self,
        handle: Self::Waker,
        before: Seq<Frame<'a, V>>,
        after_self: Self,
        after: Seq<Frame<'a, V>>,
        r: Poll<Self::Output>,
    ) -> bool {
        true
    }

    /// Runs the computation as far as it can go. A poll may take owned values
    /// from the chain and lend links of its own while it runs; it hands the
    /// chain back with the links it found, each as it was or spent.
    fn poll<'a>(&mut self, cx: &mut ProviderWaker<'a, Self::Waker, V>) -> (r: Poll<Self::Output>) where
        Self: 'a,

        ensures
            final(cx).handle() == old(cx).handle(),
            only_consumed(old(cx).chain(), final(cx).chain()),
            old(self).polled(*old(cx).handle(), old(cx).chain(), *final(self), final(cx).chain(), r),
    ;
}

/// A computation that lends one link to the chain of every poll of `inner`.
///
/// The link is built afresh on each poll and taken back when the poll returns,
/// so nothing of it stays in the chain between polls. An owned value that a
/// poll took does not come back.
pub struct ProviderFut<'r, F, V> {
    inner: F,
    frame: Frame<'r, V>,
}

impl<'r, F, V> ProviderFut<'r, F, V> {
    /// The computation that is polled under the link.
    pub closed spec fn inner(&self) -> F {
        self.inner
    }

    /// The link lent to each poll, as it stands now.
    pub closed spec fn lent(&self) -> Frame<'r, V> {
        self.frame
    }
}

impl<'r, V, F: Computation<V>> Computation<V> for ProviderFut<'r, F, V> {
    type Waker = F::Waker;

    type Output = F::Output;

    /// A poll of the wrapper is one poll of `inner`, with the same handle and
    /// with the link pushed onto the caller's chain; the link comes back as
    /// that poll left it, and what `inner` returned is returned.
    closed spec fn polled<'a>(
        &self,
        handle: F::Waker,
        before: Seq<Frame<'a, V>>,
        after_self: Self,
        after: Seq<Frame<'a, V>>,
        r: Poll<F::Output>,
    ) -> bool {
        self.inner.polled(
            handle,
            before.push(self.frame),
            after_self.inner,
            after.push(after_self.frame),
            r,
        )
    }

    /// Polls `inner` with the link pushed onto the chain, then takes the link
    /// back, and returns what `inner` returned.
    fn poll<'a>(&mut self, cx: &mut ProviderWaker<'a, F::Waker, V>) -> (r: Poll<F::Output>) where
        Self: 'a,

        ensures
            old(self).inner().polled(
                *old(cx).handle(),
                old(cx).chain().push(old(self).lent()),
                final(self).inner(),
                final(cx).chain().push(final(self).lent()),
                r,
            ),
            final(self).lent() == old(self).lent() || final(self).lent() == spent_frame(
                old(self).lent(),
            ),
    {
        let link = self.frame.lend();
        cx.push(link);
        let r = self.inner.poll(cx);
        let ghost mid = cx.chain();
        proof {
            assert(mid.len() == old(cx).chain().len() + 1);
            assert(mid.last() == link || mid.last() == spent_frame(link));
        }
        let back = cx.pop();
        if let Some(Frame { provision: Provision::Value(p), .. }) = back {
            if let Provision::Value(mine) = &mut self.frame.provision {
                mine.0 = p.0;
            }
        }
        proof {
            assert forall|i: int| 0 <= i < old(cx).chain().len() implies #[trigger] cx.chain()[i]
                == old(cx).chain()[i] || cx.chain()[i] == spent_frame(old(cx).chain()[i]) by {
                assert(old(cx).chain().push(link)[i] == old(cx).chain()[i]);
            }
            assert(cx.chain().push(self.frame) == mid);
        }
        r
    }
}

/// Wraps a computation so that it lends a value to every computation it polls.
pub trait ProviderFutExt<V>: Computation<V> + Sized {
    /// Lends `frame` to every poll of `self`.
    fn provide<'r>(self, frame: Frame<'r, V>) -> (r: ProviderFut<'r, Self, V>)
        ensures
            r.inner() == self,
            r.lent() == frame,
    {
        ProviderFut { inner: self, frame }
    }

    /// Lends a borrow of `value`, under `key`, to every poll of `self`.
    fn provide_ref<'r>(self, key: TypeKey, value: &'r V) -> (r: ProviderFut<'r, Self, V>)
        ensures
            r.inner() == self,
            r.lent() == Frame::by_ref_spec(key, value),
    {
        self.provide(Frame::by_ref(key, value))
    }

    /// Lends `value`, under `key`, to the polls of `self` until one takes it.
    fn provide_value<'r>(self, key: TypeKey, value: V) -> (r: ProviderFut<'r, Self, V>)
        ensures
            r.inner() == self,
            r.lent() == Frame::<'r, V>::by_value_spec(key, value),
    {
        self.provide(Frame::by_value(key, value))
    }
}

impl<V, C: Computation<V>> ProviderFutExt<V> for C {

}

} // verus!
