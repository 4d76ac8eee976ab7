//! The "finished" signal between ordered futures: one tokio one-shot channel
//! per ordering edge, and a ghost record of every poll of a receiver and every
//! send on a sender.
use vstd::prelude::*;
use std::task::{Context, Waker};
use crate::task::waker_of;
use crate::record::Record;
use tokio::sync::oneshot::{Receiver, Sender};

verus! {

/// The sending end of a one-shot channel.
#[verifier::external_type_specification]
#[verifier::external_body]
#[verifier::reject_recursive_types(T)]
pub struct ExSender<T>(Sender<T>);

/// The receiving end: resolves once its sender has sent, or has been dropped.
#[verifier::external_type_specification]
#[verifier::external_body]
#[verifier::reject_recursive_types(T)]
pub struct ExReceiver<T>(Receiver<T>);

/// The error a receiver resolves to when its sender went away unused.  Verus
/// needs it declared because it is the output type of the receiver's poll.
#[verifier::external_type_specification]
#[verifier::external_body]
pub struct ExRecvError(tokio::sync::oneshot::error::RecvError);

/// A receiver that has not resolved yet.  Only `new_channel` makes one, and a
/// poll that finds it resolved drops it, so no `Waiter` is ever polled after
/// its receiver resolved.
pub struct Waiter {
    rx: Receiver<()>,
}

impl View for Waiter {
    type V = Receiver<()>;

    closed spec fn view(&self) -> Receiver<()> {
        self.rx
    }
}

/// Whether `tx` and `rx` are the two ends of one channel made by
/// `tokio::sync::oneshot::channel`.
pub uninterp spec fn paired(tx: Sender<()>, rx: Receiver<()>) -> bool;

/// Calls `tokio::sync::oneshot::channel`, which gives both ends one shared
/// channel state: they are paired.  The receiver is wrapped as a `Waiter`.
#[verifier::external_body]
pub(crate) fn new_channel() -> (res: (Sender<()>, Waiter))
    ensures
        paired(res.0, res.1@),
{
    let (tx, rx) = tokio::sync::oneshot::channel();
    (tx, Waiter { rx })
}

/// Polls the receiver once through tokio's `Future` impl for `Receiver`.  A
/// receiver whose poll is ready (with the value, or with `RecvError` when the
/// sender was dropped) is dropped here (`None`); a pending one is handed back
/// (`Some`) as it was, since tokio's `poll` returns `Pending` before it changes
/// the receiver.  tokio only reads the context (its waker), so it is left as
/// it was.  Whether the poll is ready depends on the other task and is not
/// stated.  The poll, its outcome and the context's waker are recorded in
/// `events`; no other call extends that record.
#[verifier::external_body]
fn poll_receiver(events: &mut Record<SignalEvent>, w: Waiter, cx: &mut Context) -> (res: Option<Waiter>)
    ensures
        res matches Some(r) ==> r == w,
        *final(cx) == *old(cx),
        final(events).items() == old(events).items().push(
            SignalEvent::Polled { waiter: w, ready: res is None, waker: waker_of(*old(cx)) },
        ),
{
    let mut w = w;
    match std::future::Future::poll(std::pin::Pin::new(&mut w.rx), cx) {
        std::task::Poll::Ready(_) => None,
        std::task::Poll::Pending => Some(w),
    }
}

/// Calls `Sender::send` with `()`; whether the receiver was still there is
/// ignored.  The send is recorded in `events`; no other call extends that
/// record.
#[verifier::external_body]
fn send_done(events: &mut Record<SignalEvent>, tx: Sender<()>)
    ensures
        final(events).items() == old(events).items().push(SignalEvent::Sent { tx }),
{
    let _ = tx.send(());
}

/// One thing that happened to a channel end.
pub enum SignalEvent {
    /// `waiter` was polled with a context whose waker is `waker`; `ready`
    /// tells whether it had resolved (and was dropped) or was still pending
    /// (and was kept, to wake `waker` once it resolves).
    Polled { waiter: Waiter, ready: bool, waker: Waker },
    /// `()` was sent on `tx`.
    Sent { tx: Sender<()> },
}

/// The record of what was done with the channel ends of one future.  Only the
/// two methods below extend it, and each makes the outside call it records.
pub struct SignalLog {
    events: Record<SignalEvent>,
}

impl SignalLog {
    pub closed spec fn events(self) -> Seq<SignalEvent> {
        self.events.items()
    }

    pub fn new() -> (l: Self)
        ensures
            l.events() == Seq::<SignalEvent>::empty(),
    {
        SignalLog { events: Record::new() }
    }

    /// Polls `w` once and records the outcome.
    pub fn poll_waiter(&mut self, w: Waiter, cx: &mut Context) -> (res: Option<Waiter>)
        ensures
            res matches Some(r) ==> r == w,
            *final(cx) == *old(cx),
            final(self).events() == old(self).events().push(
                SignalEvent::Polled { waiter: w, ready: res is None, waker: waker_of(*old(cx)) },
            ),
    {
        poll_receiver(&mut self.events, w, cx)
    }

    /// Sends the signal on `tx` and records it.
    pub fn send(&mut self, tx: Sender<()>)
        ensures
            final(self).events() == old(self).events().push(SignalEvent::Sent { tx }),
    {
        send_done(&mut self.events, tx);
    }
}

} // verus!
