//! Context values that many computations look for: a deadline, and the
//! outcome of racing a computation against the signals that stop it.
use vstd::prelude::*;

use crate::demand::{looked_up, with_ref, TypeKey};
use crate::provider::Poll;
use crate::waker::ProviderWaker;

verus! {

/// The instant by which a computation should be done, as a reading of the
/// scheduler's monotonic clock.
pub struct Deadline(pub u64);

impl Deadline {
    /// Whether the deadline has passed at clock reading `now`.
    pub fn is_expired(&self, now: u64) -> (r: bool)
        ensures
            r == (now >= self.0),
    {
        now >= self.0
    }

    /// The time left at clock reading `now`; none once the deadline has passed.
    pub fn remaining(&self, now: u64) -> (r: u64)
        ensures
            r == (if now >= self.0 { 0 } else { (self.0 - now) as u64 }),
    {
        if now >= self.0 {
            0
        } else {
            self.0 - now
        }
    }

    /// The nearest deadline lent under `key`, if any.
    pub fn get<'a, W>(cx: &ProviderWaker<'a, W, Deadline>, key: TypeKey) -> (r: Option<u64>)
        ensures
            r == (match looked_up(cx.chain(), key) {
                Some(d) => Some(d.0),
                None => None,
            }),
    {
        with_ref(cx, key, |d: &Deadline| -> (t: u64)
            ensures
                t == d.0,
            { d.0 })
    }
}

/// How a computation raced against its stop signals ended: stopped, with the
/// unfinished computation handed back, or finished, with its result.
#[derive(Debug)]
pub enum SignalOrComplete<F, T> {
    ShutdownSignal(F),
    Completed(T),
}

impl<F, T> SignalOrComplete<F, T> {
    /// The result, if the computation finished.
    pub fn completed(self) -> (r: Option<T>)
        ensures
            r == (match self {
                SignalOrComplete::ShutdownSignal(_) => None,
                SignalOrComplete::Completed(t) => Some(t),
            }),
    {
        match self {
            SignalOrComplete::ShutdownSignal(_) => None,
            SignalOrComplete::Completed(t) => Some(t),
        }
    }
}

/// A computation raced against a deadline and a shutdown signal.
///
/// Each round, the caller polls the computation, then the deadline timer, then
/// the shutdown signal, and hands what it saw to `settle`. A finished
/// computation wins over both signals.
pub struct SignalOrCompleteFut<F> {
    inner: Option<F>,
}

impl<F> SignalOrCompleteFut<F> {
    /// The computation while the race is on; none once it is settled.
    pub closed spec fn running(&self) -> Option<F> {
        self.inner
    }

    /// A race of `f` that has not begun.
    pub fn new(f: F) -> (r: Self)
        ensures
            r.running() == Some(f),
    {
        SignalOrCompleteFut { inner: Some(f) }
    }

    /// The computation, to poll for this round.
    pub fn computation(&mut self) -> (f: &mut F)
        requires
            old(self).running() is Some,
        ensures
            *f == old(self).running()->Some_0,
            final(self).running() == Some(*final(f)),
    {
        match &mut self.inner {
            Some(f) => f,
            None => unreached(),
        }
    }

    /// Decides one round from what the computation's poll gave (`step`) and
    /// whether the deadline passed or the shutdown signal came. A finished
    /// computation completes the race; otherwise either signal stops it and
    /// hands the computation back; otherwise the race goes on.
    pub fn settle<T>(&mut self, step: Poll<T>, deadline_passed: bool, shutdown: bool) -> (r: Poll<
        SignalOrComplete<F, T>,
    >)
        requires
            old(self).running() is Some,
        ensures
            match step {
                Poll::Ready(t) => r == Poll::Ready(SignalOrComplete::<F, T>::Completed(t))
                    && final(self).running() is None,
                Poll::Pending => if deadline_passed || shutdown {
                    r == Poll::Ready(
                        SignalOrComplete::<F, T>::ShutdownSignal(old(self).running()->Some_0),
                    ) && final(self).running() is None
                } else {
                    r is Pending && final(self).running() == old(self).running()
                },
            },
    {
        let f = self.inner.take();
        match (step, f) {
            (Poll::Ready(t), _) => Poll::Ready(SignalOrComplete::Completed(t)),
            (Poll::Pending, Some(f)) => {
                if deadline_passed || shutdown {
                    Poll::Ready(SignalOrComplete::ShutdownSignal(f))
                } else {
                    self.inner = Some(f);
                    Poll::Pending
                }
            },
            (Poll::Pending, None) => Poll::Pending,
        }
    }
}

} // verus!
