//! The poll result and the executor context that the futures of this crate use.
use vstd::prelude::*;
use crate::record::Record;

verus! {

/// The executor's context handed to every poll.
#[verifier::external_type_specification]
#[verifier::external_body]
pub struct ExContext<'a>(std::task::Context<'a>);

/// The handle through which a future asks its executor to poll it again.
#[verifier::external_type_specification]
#[verifier::external_body]
pub struct ExWaker(std::task::Waker);

/// The waker that a context hands out.
pub uninterp spec fn waker_of(cx: std::task::Context) -> std::task::Waker;

/// Calls `Context::waker`: the waker of the task being polled, the one the
/// context was built with.
#[verifier::external_body]
pub(crate) fn context_waker<'a>(cx: &'a std::task::Context) -> (w: &'a std::task::Waker)
    ensures
        *w == waker_of(*cx),
{
    cx.waker()
}

/// Calls `Waker::wake_by_ref` on `w`: asks the executor to poll the task
/// again.  The call is recorded in `woken`; no other call extends that record.
#[verifier::external_body]
pub(crate) fn wake_by_ref(woken: &mut Record<std::task::Waker>, w: &std::task::Waker)
    ensures
        final(woken).items() == old(woken).items().push(*w),
{
    w.wake_by_ref()
}

/// Calls `Waker::noop`: a waker that does nothing when woken.
#[verifier::external_body]
pub(crate) fn noop_waker() -> &'static std::task::Waker {
    std::task::Waker::noop()
}

/// Calls `Context::from_waker`: a context that hands out `w`.
#[verifier::external_body]
pub(crate) fn context_from_waker<'a>(w: &'a std::task::Waker) -> std::task::Context<'a> {
    std::task::Context::from_waker(w)
}

/// The record of the wakers one future asked to be woken through.  Only
/// `wake` extends it, and it makes the wake call it records.
pub struct WakeLog {
    woken: Record<std::task::Waker>,
}

impl WakeLog {
    pub closed spec fn woken(self) -> Seq<std::task::Waker> {
        self.woken.items()
    }

    pub fn new() -> (l: Self)
        ensures
            l.woken() == Seq::<std::task::Waker>::empty(),
    {
        WakeLog { woken: Record::new() }
    }

    /// Wakes the waker of `cx` and records it.
    pub fn wake(&mut self, cx: &std::task::Context)
        ensures
            final(self).woken() == old(self).woken().push(waker_of(*cx)),
    {
        let w = context_waker(cx);
        wake_by_ref(&mut self.woken, w);
    }
}

/// Outcome of polling one of this crate's futures.
#[derive(Debug, PartialEq, Eq, Clone)]
pub enum Poll<T> {
    Ready(T),
    Pending,
}

} // verus!
