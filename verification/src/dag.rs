//! A future that runs only after the futures ordered before it have finished.
use vstd::prelude::*;
use std::task::{Context, Waker};
use tokio::sync::oneshot::Sender;
use crate::task::{Poll, waker_of};
use crate::signal::{new_channel, paired, SignalEvent, SignalLog, Waiter};

verus! {

/// What polling the waiters `prev` from the last one down with a context whose
/// waker is `waker` records, when the first `kept` of them stay: each one
/// above `kept` was found resolved, and the one just below it, if any, was
/// found pending and now holds `waker`.
pub open spec fn wait_events(prev: Seq<Waiter>, kept: int, waker: Waker) -> Seq<SignalEvent> {
    let n = prev.len() as int;
    let resolved = Seq::new(
        (n - kept) as nat,
        |j: int| SignalEvent::Polled { waiter: prev[n - 1 - j], ready: true, waker },
    );
    if kept > 0 {
        resolved.push(SignalEvent::Polled { waiter: prev[kept - 1], ready: false, waker })
    } else {
        resolved
    }
}

/// What sending on every sender of `next`, from the last one down, records.
pub open spec fn sent_events(next: Seq<Sender<()>>) -> Seq<SignalEvent> {
    let m = next.len() as int;
    Seq::new(m as nat, |j: int| SignalEvent::Sent { tx: next[m - 1 - j] })
}

/// Whether `e` records a poll that found `w` resolved.
pub open spec fn resolves(e: SignalEvent, w: Waiter) -> bool {
    e matches SignalEvent::Polled { waiter, ready: true, .. } && waiter == w
}

/// Whether `events` records a poll that found `w` resolved.
pub open spec fn found_resolved(events: Seq<SignalEvent>, w: Waiter) -> bool {
    exists|i: int|
        0 <= i < events.len() && resolves(#[trigger] events[i], w)
}

/// Each receiver in `prev` is in `waited`, and each one in `waited` but no
/// longer in `prev` is recorded in `events` as polled and found resolved.
pub open spec fn wf_parts(prev: Seq<Waiter>, waited: Seq<Waiter>, events: Seq<SignalEvent>) -> bool {
    &&& forall|i: int| 0 <= i < prev.len() ==> waited.contains(#[trigger] prev[i])
    &&& forall|w: Waiter| #[trigger] waited.contains(w) && !prev.contains(w) ==> found_resolved(events, w)
}

/// Recording more events keeps what was recorded.
proof fn lemma_wf_more_events(
    prev: Seq<Waiter>,
    waited: Seq<Waiter>,
    events: Seq<SignalEvent>,
    more: Seq<SignalEvent>,
)
    requires
        wf_parts(prev, waited, events),
    ensures
        wf_parts(prev, waited, events + more),
{
    assert forall|w: Waiter| #[trigger] waited.contains(w) && !prev.contains(w)
        implies found_resolved(events + more, w) by {
        let i = choose|i: int|
            0 <= i < events.len() && resolves(#[trigger] events[i], w);
        assert((events + more)[i] == events[i]);
    }
}

/// Dropping the last receiver once it was found resolved keeps the invariant.
proof fn lemma_wf_drop_resolved(prev: Seq<Waiter>, waited: Seq<Waiter>, events: Seq<SignalEvent>, waker: Waker)
    requires
        wf_parts(prev, waited, events),
        prev.len() > 0,
    ensures
        wf_parts(
            prev.drop_last(),
            waited,
            events.push(SignalEvent::Polled { waiter: prev.last(), ready: true, waker }),
        ),
{
    let e = SignalEvent::Polled { waiter: prev.last(), ready: true, waker };
    let ev2 = events.push(e);
    let p2 = prev.drop_last();
    lemma_wf_more_events(prev, waited, events, seq![e]);
    assert(events + seq![e] =~= ev2);
    assert forall|i: int| 0 <= i < p2.len() implies waited.contains(#[trigger] p2[i]) by {
        assert(p2[i] == prev[i]);
    }
    assert forall|w: Waiter| #[trigger] waited.contains(w) && !p2.contains(w)
        implies found_resolved(ev2, w) by {
        if w == prev.last() {
            assert(ev2[ev2.len() - 1] == e);
        } else if prev.contains(w) {
            let j = choose|j: int| 0 <= j < prev.len() && prev[j] == w;
            assert(j < prev.len() - 1);
            assert(p2[j] == w);
        }
    }
}

/// Calls `poll_inner` on `inner` with `cx`.
fn poll_with<F, T, P>(inner: &mut F, cx: &mut Context, poll_inner: P) -> (r: Poll<T>)
    where P: FnOnce(&mut F, &mut Context) -> Poll<T>,
    requires
        forall|a: &mut F, c: &mut Context| call_requires(poll_inner, (a, c)),
    ensures
        exists|a: &mut F, c: &mut Context| {
            &&& *a == *old(inner)
            &&& *c == *old(cx)
            &&& *final(a) == *final(inner)
            &&& *final(c) == *final(cx)
            &&& call_ensures(poll_inner, (a, c), r)
        },
{
    poll_inner(inner, cx)
}

/// The channel ends of one ordered future, and the record of their use.
struct Links {
    prev: Vec<Waiter>,
    next: Vec<Sender<()>>,
    log: SignalLog,
    waited: Ghost<Seq<Waiter>>,
}

impl Links {
    /// Each receiver still waited on was given to this future, and each one
    /// given to it that is no longer waited on was polled and found resolved.
    #[verifier::type_invariant]
    closed spec fn wf(self) -> bool {
        wf_parts(self.prev@, self.waited@, self.log.events())
    }

    fn new() -> (l: Self)
        ensures
            l.prev@ == Seq::<Waiter>::empty(),
            l.next@ == Seq::<Sender<()>>::empty(),
            l.waited@ == Seq::<Waiter>::empty(),
            l.log.events() == Seq::<SignalEvent>::empty(),
    {
        Links { prev: Vec::new(), next: Vec::new(), log: SignalLog::new(), waited: Ghost(Seq::empty()) }
    }

    /// Adds a sender to signal.
    fn add_next(self, tx: Sender<()>) -> (l: Self)
        ensures
            l.prev@ == self.prev@,
            l.waited@ == self.waited@,
            l.next@ == self.next@.push(tx),
            l.log.events() == self.log.events(),
    {
        proof {
            use_type_invariant(&self);
        }
        let Links { prev, mut next, log, waited } = self;
        next.push(tx);
        Links { prev, next, log, waited }
    }

    /// Adds a receiver to wait on.
    fn add_prev(self, w: Waiter) -> (l: Self)
        ensures
            l.prev@ == self.prev@.push(w),
            l.waited@ == self.waited@.push(w),
            l.next@ == self.next@,
            l.log.events() == self.log.events(),
    {
        proof {
            use_type_invariant(&self);
        }
        let Links { mut prev, next, log, waited } = self;
        let ghost wg = w;
        prev.push(w);
        let ghost p0 = self.prev@;
        let ghost w0 = self.waited@;
        let ghost ev = log.events();
        proof {
            assert(prev@ == p0.push(wg));
            assert forall|i: int| 0 <= i < p0.len() + 1 implies w0.push(wg).contains(#[trigger] p0.push(wg)[i]) by {
                if i < p0.len() {
                    assert(p0.push(wg)[i] == p0[i]);
                    assert(w0.contains(p0[i]));
                    let k = choose|k: int| 0 <= k < w0.len() && w0[k] == p0[i];
                    assert(w0.push(wg)[k] == p0[i]);
                } else {
                    assert(w0.push(wg)[w0.len() as int] == wg);
                }
            }
            assert forall|v: Waiter| #[trigger] w0.push(wg).contains(v) && !p0.push(wg).contains(v)
                implies found_resolved(ev, v) by {
                assert(p0.push(wg)[p0.len() as int] == wg);
                let k = choose|k: int| 0 <= k < w0.len() + 1 && w0.push(wg)[k] == v;
                assert(k < w0.len());
                assert(w0[k] == v);
                assert(w0.contains(v));
                if p0.contains(v) {
                    let j = choose|j: int| 0 <= j < p0.len() && p0[j] == v;
                    assert(p0.push(wg)[j] == v);
                }
            }
        }
        Links { prev, next, log, waited: Ghost(w0.push(wg)) }
    }

    /// Polls the receivers still waited on from the last one down, dropping
    /// each one found resolved, and stops at the first one found pending,
    /// which stays.  Also answers whether none is left to wait for.
    fn wait_for_prev(self, cx: &mut Context) -> (res: (Self, bool))
        ensures
            res.0.next@ == self.next@,
            res.0.waited@ == self.waited@,
            *final(cx) == *old(cx),
            res.0.prev@ == self.prev@.take(res.0.prev@.len() as int),
            res.0.log.events() == self.log.events()
                + wait_events(self.prev@, res.0.prev@.len() as int, waker_of(*old(cx))),
            res.1 <==> res.0.prev@.len() == 0,
            res.1 ==> forall|w: Waiter| #[trigger] res.0.waited@.contains(w) ==> found_resolved(res.0.log.events(), w),
    {
        proof {
            use_type_invariant(&self);
        }
        let ghost n = self.prev@.len() as int;
        let ghost p0 = self.prev@;
        let ghost e0 = self.log.events();
        let ghost wk = waker_of(*old(cx));
        let ghost next0 = self.next@;
        let ghost waited0 = self.waited@;
        let Links { mut prev, next, mut log, waited } = self;
        while prev.len() > 0
            invariant
                next@ == next0,
                waited@ == waited0,
                next0 == self.next@,
                waited0 == self.waited@,
                p0 == self.prev@,
                e0 == self.log.events(),
                wf_parts(prev@, waited@, log.events()),
                *cx == *old(cx),
                wk == waker_of(*old(cx)),
                n == p0.len(),
                prev@.len() <= n,
                prev@ == p0.take(prev@.len() as int),
                log.events() == e0 + Seq::new(
                    (n - prev@.len()) as nat,
                    |j: int| SignalEvent::Polled { waiter: p0[n - 1 - j], ready: true, waker: wk },
                ),
            decreases prev@.len(),
        {
            let ghost m = prev@.len() as int;
            let ghost before_pop = prev@;
            let ghost ev = log.events();
            let w = prev.pop().unwrap();
            assert(w == p0[m - 1]);
            match log.poll_waiter(w, cx) {
                Some(w) => {
                    prev.push(w);
                    proof {
                        let e = SignalEvent::Polled { waiter: w, ready: false, waker: wk };
                        assert(prev@ =~= before_pop);
                        lemma_wf_more_events(before_pop, waited@, ev, seq![e]);
                        assert(ev + seq![e] =~= log.events());
                        assert(log.events() =~= e0 + wait_events(p0, m, wk));
                    }
                    return (Links { prev, next, log, waited }, false);
                },
                None => {
                    proof {
                        lemma_wf_drop_resolved(before_pop, waited@, ev, wk);
                        assert(before_pop.drop_last() =~= prev@);
                        assert(prev@ =~= p0.take(m - 1));
                        assert(log.events() =~= e0 + Seq::new(
                            (n - (m - 1)) as nat,
                            |j: int| SignalEvent::Polled { waiter: p0[n - 1 - j], ready: true, waker: wk },
                        ));
                    }
                },
            }
        }
        proof {
            assert(log.events() =~= e0 + wait_events(p0, 0, wk));
            assert forall|w: Waiter| #[trigger] waited@.contains(w) implies found_resolved(log.events(), w) by {
                assert(!prev@.contains(w));
            }
        }
        (Links { prev, next, log, waited }, true)
    }

    /// Sends on every successor's sender, from the last one down, consuming
    /// the senders.
    fn notify_next(self) -> (l: Self)
        ensures
            l.prev@ == self.prev@,
            l.waited@ == self.waited@,
            l.next@.len() == 0,
            l.log.events() == self.log.events() + sent_events(self.next@),
    {
        proof {
            use_type_invariant(&self);
        }
        let ghost m = self.next@.len() as int;
        let ghost n0 = self.next@;
        let ghost e0 = self.log.events();
        let ghost prev0 = self.prev@;
        let ghost waited0 = self.waited@;
        let Links { prev, mut next, mut log, waited } = self;
        while next.len() > 0
            invariant
                prev@ == prev0,
                waited@ == waited0,
                wf_parts(prev@, waited@, e0),
                m == n0.len(),
                next@.len() <= m,
                next@ == n0.take(next@.len() as int),
                log.events() == e0 + Seq::new(
                    (m - next@.len()) as nat,
                    |j: int| SignalEvent::Sent { tx: n0[m - 1 - j] },
                ),
            decreases next@.len(),
        {
            let ghost k = next@.len() as int;
            let tx = next.pop().unwrap();
            assert(tx == n0[k - 1]);
            log.send(tx);
            proof {
                assert(next@ =~= n0.take(k - 1));
                assert(log.events() =~= e0 + Seq::new(
                    (m - (k - 1)) as nat,
                    |j: int| SignalEvent::Sent { tx: n0[m - 1 - j] },
                ));
            }
        }
        proof {
            assert(log.events() =~= e0 + sent_events(n0));
            lemma_wf_more_events(prev@, waited@, e0, sent_events(n0));
        }
        Links { prev, next, log, waited }
    }
}

/// A future wrapped so that it starts only after the futures ordered before
/// it have finished, and then tells the futures ordered after it.
pub struct DagFuture<F> {
    inner: F,
    links: Links,
}

impl<F> DagFuture<F> {
    /// The wrapped future.
    pub closed spec fn inner_future(self) -> F {
        self.inner
    }

    /// The receivers, one per future ordered before this one, not yet found
    /// resolved.
    pub closed spec fn waits_on(self) -> Seq<Waiter> {
        self.links.prev@
    }

    /// Senders through which this future tells its successors that it finished.
    pub closed spec fn notifies(self) -> Seq<Sender<()>> {
        self.links.next@
    }

    /// Every receiver this future was ever given to wait on.
    pub closed spec fn ever_waited(self) -> Seq<Waiter> {
        self.links.waited@
    }

    /// Every poll of one of its receivers and every send on one of its
    /// senders, in order.
    pub closed spec fn signals(self) -> Seq<SignalEvent> {
        self.links.log.events()
    }

    /// Wraps `inner`, ordered after nothing and before nothing.
    pub fn new(inner: F) -> (r: Self)
        ensures
            r.inner_future() == inner,
            r.waits_on() == Seq::<Waiter>::empty(),
            r.notifies() == Seq::<Sender<()>>::empty(),
            r.ever_waited() == Seq::<Waiter>::empty(),
            r.signals() == Seq::<SignalEvent>::empty(),
    {
        DagFuture { inner, links: Links::new() }
    }

    /// Orders `self` before `other`: `other` will not poll its inner future
    /// until `self` has finished.  One fresh channel joins the two: its sender
    /// is added to what `self` notifies, its receiver to what `other` waits on.
    pub fn before<O>(&mut self, other: &mut DagFuture<O>)
        ensures
            final(self).inner_future() == old(self).inner_future(),
            final(self).waits_on() == old(self).waits_on(),
            final(self).ever_waited() == old(self).ever_waited(),
            final(self).signals() == old(self).signals(),
            final(self).notifies().len() == old(self).notifies().len() + 1,
            final(self).notifies().drop_last() == old(self).notifies(),
            final(other).inner_future() == old(other).inner_future(),
            final(other).notifies() == old(other).notifies(),
            final(other).signals() == old(other).signals(),
            final(other).waits_on().len() == old(other).waits_on().len() + 1,
            final(other).waits_on().drop_last() == old(other).waits_on(),
            final(other).ever_waited() == old(other).ever_waited().push(final(other).waits_on().last()),
            paired(final(self).notifies().last(), final(other).waits_on().last()@),
    {
        let (tx, rx) = new_channel();
        let mut mine = Links::new();
        std::mem::swap(&mut mine, &mut self.links);
        self.links = mine.add_next(tx);
        let mut theirs = Links::new();
        std::mem::swap(&mut theirs, &mut other.links);
        other.links = theirs.add_prev(rx);
        proof {
            assert(self.links.next@.drop_last() =~= old(self).links.next@);
            assert(other.links.prev@.drop_last() =~= old(other).links.prev@);
        }
    }

    /// One poll of the ordered future.  The receivers still waited on are
    /// polled with `cx` from the last one down; each found resolved is
    /// dropped, and the first found pending stays, holding `cx`'s waker and
    /// making this poll `Pending` without touching the inner future.  Once
    /// none is left, `poll_inner` polls the wrapped future (the caller pins
    /// it) with `cx` itself, its answer is this poll's answer, and on `Ready`
    /// every successor is sent its signal.
    pub fn poll<T, P>(&mut self, cx: &mut Context, poll_inner: P) -> (r: Poll<T>)
        where P: FnOnce(&mut F, &mut Context) -> Poll<T>,
        requires
            forall|a: &mut F, c: &mut Context| call_requires(poll_inner, (a, c)),
        ensures
            final(self).ever_waited() == old(self).ever_waited(),
            final(self).waits_on() == old(self).waits_on().take(final(self).waits_on().len() as int),
            // still waiting: the last receiver left was polled with `cx` and
            // found pending, those above it were found resolved, and nothing
            // else happened
            final(self).waits_on().len() > 0 ==> {
                &&& r is Pending
                &&& final(self).inner_future() == old(self).inner_future()
                &&& final(self).notifies() == old(self).notifies()
                &&& *final(cx) == *old(cx)
                &&& final(self).signals() == old(self).signals() + wait_events(
                    old(self).waits_on(),
                    final(self).waits_on().len() as int,
                    waker_of(*old(cx)),
                )
            },
            // nothing left to wait for: every receiver ever given was found
            // resolved, the inner future was polled once with `cx`, and its
            // answer is returned
            final(self).waits_on().len() == 0 ==> {
                &&& forall|w: Waiter| #[trigger] final(self).ever_waited().contains(w)
                    ==> found_resolved(final(self).signals(), w)
                &&& exists|a: &mut F, c: &mut Context| {
                    &&& *a == old(self).inner_future()
                    &&& *c == *old(cx)
                    &&& *final(a) == final(self).inner_future()
                    &&& *final(c) == *final(cx)
                    &&& call_ensures(poll_inner, (a, c), r)
                }
            },
            // successors are signalled, every one of them, exactly when the
            // inner future is ready
            r is Ready ==> {
                &&& final(self).notifies().len() == 0
                &&& final(self).signals() == old(self).signals() + wait_events(
                    old(self).waits_on(),
                    0,
                    waker_of(*old(cx)),
                ) + sent_events(old(self).notifies())
            },
            r is Pending && final(self).waits_on().len() == 0 ==> {
                &&& final(self).notifies() == old(self).notifies()
                &&& final(self).signals() == old(self).signals() + wait_events(
                    old(self).waits_on(),
                    0,
                    waker_of(*old(cx)),
                )
            },
    {
        let mut links = Links::new();
        std::mem::swap(&mut links, &mut self.links);
        let (links, ready) = links.wait_for_prev(cx);
        if !ready {
            self.links = links;
            return Poll::Pending;
        }
        let ghost waited = links.waited@;
        let ghost e1 = links.log.events();
        let r = poll_with(&mut self.inner, cx, poll_inner);
        let links = match r {
            Poll::Ready(_) => {
                let links = links.notify_next();
                proof {
                    assert(links.log.events() =~= old(self).links.log.events() + wait_events(
                        old(self).links.prev@,
                        0,
                        waker_of(*old(cx)),
                    ) + sent_events(old(self).links.next@));
                    assert forall|w: Waiter| #[trigger] waited.contains(w)
                        implies found_resolved(links.log.events(), w) by {
                        assert(found_resolved(e1, w));
                        let i = choose|i: int| 0 <= i < e1.len() && resolves(#[trigger] e1[i], w);
                        assert(links.log.events()[i] == e1[i]);
                    }
                }
                links
            },
            Poll::Pending => links,
        };
        self.links = links;
        r
    }
}

} // verus!
