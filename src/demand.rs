use vstd::prelude::*;

use crate::provider::{Frame, Provision};
use crate::waker::{after_demand, demand_after, lemma_nearest_bounds, ProviderWaker};

verus! {

/// Names the type that a value is offered as, or asked for as.
pub type TypeKey = u64;

/// A typed request for a value of the chain: by reference or by value.
///
/// It starts unanswered; at most one provider answers it, and a provider that
/// meets an answered demand leaves it as it is.
#[allow(inconsistent_fields)]
pub enum Demand<'a, V> {
    /// Asks for a borrow of a value offered under `key`.
    ByRef { key: TypeKey, answer: Option<&'a V> },
    /// Asks for an owned value offered under `key`.
    ByValue { key: TypeKey, answer: Option<V> },
}

impl<'a, V> Demand<'a, V> {
    /// The key that the demand asks for.
    pub open spec fn spec_key(&self) -> TypeKey {
        match self {
            Demand::ByRef { key, .. } => *key,
            Demand::ByValue { key, .. } => *key,
        }
    }

    /// Whether a provider has answered the demand.
    pub open spec fn is_answered(&self) -> bool {
        match self {
            Demand::ByRef { answer, .. } => answer is Some,
            Demand::ByValue { answer, .. } => answer is Some,
        }
    }

    /// An unanswered demand for a borrow of the value under `key`.
    pub fn by_ref(key: TypeKey) -> (d: Self)
        ensures
            d == (Self::ByRef { key, answer: None }),
    {
        Demand::ByRef { key, answer: None }
    }

    /// An unanswered demand for the owned value under `key`.
    pub fn by_value(key: TypeKey) -> (d: Self)
        ensures
            d == (Self::ByValue { key, answer: None }),
    {
        Demand::ByValue { key, answer: None }
    }

    /// The key that the demand asks for.
    pub fn key(&self) -> (k: TypeKey)
        ensures
            k == self.spec_key(),
    {
        match self {
            Demand::ByRef { key, .. } => *key,
            Demand::ByValue { key, .. } => *key,
        }
    }

    /// Whether a provider has answered the demand.
    pub fn is_satisfied(&self) -> (r: bool)
        ensures
            r == self.is_answered(),
    {
        match self {
            Demand::ByRef { answer, .. } => answer.is_some(),
            Demand::ByValue { answer, .. } => answer.is_some(),
        }
    }

    /// The borrow that answered a by-reference demand, if any.
    pub fn into_ref(self) -> (r: Option<&'a V>)
        ensures
            r == (match self {
                Demand::ByRef { answer, .. } => answer,
                Demand::ByValue { .. } => None,
            }),
    {
        match self {
            Demand::ByRef { answer, .. } => answer,
            Demand::ByValue { .. } => None,
        }
    }

    /// The value that answered a by-value demand, if any.
    pub fn into_value(self) -> (r: Option<V>)
        ensures
            r == (match self {
                Demand::ByRef { .. } => None,
                Demand::ByValue { answer, .. } => answer,
            }),
    {
        match self {
            Demand::ByRef { .. } => None,
            Demand::ByValue { answer, .. } => answer,
        }
    }
}

/// The demand that borrowing the value under `key` makes.
pub open spec fn ref_request<'a, V>(key: TypeKey) -> Demand<'a, V> {
    Demand::ByRef { key, answer: None }
}

/// The demand that taking the value under `key` makes.
pub open spec fn value_request<'a, V>(key: TypeKey) -> Demand<'a, V> {
    Demand::ByValue { key, answer: None }
}

/// The borrow that `chain` answers a by-reference demand for `key` with: that
/// of the nearest borrowed value under `key`.
pub open spec fn looked_up<'a, V>(chain: Seq<Frame<'a, V>>, key: TypeKey) -> Option<&'a V> {
    match demand_after(chain, ref_request(key)) {
        Demand::ByRef { answer, .. } => answer,
        Demand::ByValue { .. } => None,
    }
}

/// The value that `chain` answers a by-value demand for `key` with: that of the
/// nearest owned value under `key` that is still there.
pub open spec fn taken<'a, V>(chain: Seq<Frame<'a, V>>, key: TypeKey) -> Option<V> {
    match demand_after(chain, value_request(key)) {
        Demand::ByRef { .. } => None,
        Demand::ByValue { answer, .. } => answer,
    }
}

/// The chain once the value under `key` has been taken from it.
pub open spec fn after_take<'a, V>(chain: Seq<Frame<'a, V>>, key: TypeKey) -> Seq<Frame<'a, V>> {
    after_demand(chain, value_request(key))
}

/// The borrow of the nearest value lent by reference under `key`, if any.
pub fn request_ref_from_context<'a, W, V>(cx: &ProviderWaker<'a, W, V>, key: TypeKey) -> (r: Option<&'a V>)
    ensures
        r == looked_up(cx.chain(), key),
{
    let mut demand = Demand::by_ref(key);
    proof {
        lemma_nearest_bounds(cx.chain(), demand);
    }
    if let Some(i) = cx.nearest_provider(&demand) {
        if let Provision::Ref(p) = &cx.link(i).provision {
            p.provide(key, &mut demand);
        }
    }
    demand.into_ref()
}

/// A copy of the nearest value lent by reference under `key`, if any.
pub fn get_value<'a, W, V: Clone>(cx: &ProviderWaker<'a, W, V>, key: TypeKey) -> (r: Option<V>)
    ensures
        match looked_up(cx.chain(), key) {
            Some(v) => r is Some && cloned(*v, r->Some_0),
            None => r is None,
        },
{
    match request_ref_from_context(cx, key) {
        Some(v) => Some(v.clone()),
        None => None,
    }
}

/// What `f` makes of the nearest value lent by reference under `key`, if any;
/// `f` reads the value where it is.
pub fn with_ref<'a, W, V, R, F: for<'c> FnOnce(&'c V) -> R>(
    cx: &ProviderWaker<'a, W, V>,
    key: TypeKey,
    f: F,
) -> (r: Option<R>)
    requires
        looked_up(cx.chain(), key) matches Some(v) ==> f.requires((v,)),
    ensures
        match looked_up(cx.chain(), key) {
            Some(v) => r matches Some(x) && f.ensures((v,), x),
            None => r is None,
        },
{
    match request_ref_from_context(cx, key) {
        Some(v) => Some(f(v)),
        None => None,
    }
}

/// Takes the nearest owned value under `key` that is still there, if any. A
/// value taken is gone for every later demand.
pub fn take_value<'a, W, V>(cx: &mut ProviderWaker<'a, W, V>, key: TypeKey) -> (r: Option<V>)
    ensures
        final(cx).handle() == old(cx).handle(),
        final(cx).chain() == after_take(old(cx).chain(), key),
        r == taken(old(cx).chain(), key),
{
    let mut demand = Demand::by_value(key);
    cx.provide(&mut demand);
    demand.into_value()
}

} // verus!
