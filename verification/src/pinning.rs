//! Pinning: a value that `Unpin` lets go of, one that it holds, and a future
//! that may only be polled in place.
//!
//! The future here keeps its string and reads it on its second poll.  Where a
//! hand-written future would keep a raw pointer to its own field, this one
//! reads the field itself, so no move can leave it reading a stale address.
use vstd::prelude::*;
use vstd::string::*;
use std::task::Context;
use std::marker::PhantomPinned;
use crate::task::{Poll, WakeLog, waker_of, context_from_waker, noop_waker};

verus! {

/// The marker that keeps a type from being `Unpin`.
#[verifier::external_type_specification]
#[verifier::external_body]
pub struct ExPhantomPinned(PhantomPinned);

/// Calls `PhantomPinned`'s `Default`: the marker value.
#[verifier::external_body]
fn pinned_marker() -> PhantomPinned {
    PhantomPinned::default()
}

/// A plain value: moving it, or mutating it through a pin, is allowed.
#[derive(Debug, Default)]
pub struct Foo {
    pub bar: u8,
}

/// A value that may not move once pinned.
pub struct FooNotUnpin {
    pub bar: u8,
    pub _marker: PhantomPinned,
}

/// A `Foo` is `Unpin`, so the place it is pinned in still hands out a
/// mutable reference, and the change made through it stays.
pub fn pinning_an_unpin_does_nothing() {
    let f = Foo { bar: 69 };
    // the pinned place owns the value; nothing else can reach it
    let mut pinned_foo = f;
    // because Foo: Unpin, a &mut to the pinned value may be taken
    let foo_ref: &mut Foo = &mut pinned_foo;
    foo_ref.bar = 67;
    assert(pinned_foo.bar == 67);
}

/// A `FooNotUnpin` once pinned yields only shared references, which still
/// read its fields.
pub fn pinning_not_unpin_disallows_getting_mut() {
    let foo_not_unpin = FooNotUnpin { bar: 69, _marker: pinned_marker() };
    let pinned_foo = foo_not_unpin;
    // only a shared reference: no swap, replace or move through it
    let foo_ref: &FooNotUnpin = &pinned_foo;
    assert(foo_ref.bar == 69);
}

/// The prefix of what a `SelfRefFuture` yields.
pub open spec fn self_ref_prefix() -> Seq<char> {
    "s_ptr points to: "@
}

/// What a `SelfRefFuture` over `text` answers to a poll, given whether it was
/// polled before: `None` for `Pending`, else the characters of the message.
pub open spec fn self_ref_answer(was_polled: bool, text: Seq<char>) -> Option<Seq<char>> {
    if was_polled { Some(self_ref_prefix() + text) } else { None }
}

/// The answers of a `SelfRefFuture` over `text`, polled before when
/// `was_polled`, to `n` polls in a row.
pub open spec fn self_ref_drive(was_polled: bool, text: Seq<char>, n: nat) -> Seq<Option<Seq<char>>>
    decreases n,
{
    if n == 0 {
        Seq::empty()
    } else {
        seq![self_ref_answer(was_polled, text)] + self_ref_drive(true, text, (n - 1) as nat)
    }
}

/// A fresh future answers `Pending` to its first poll only, and the same
/// message to every later one.
pub proof fn lemma_self_ref_drive(text: Seq<char>, n: nat)
    requires
        n >= 1,
    ensures
        self_ref_drive(false, text, n) == Seq::new(n, |i: int| if i == 0 {
            None
        } else {
            Some(self_ref_prefix() + text)
        }),
{
    lemma_self_ref_drive_polled(text, (n - 1) as nat);
    assert(self_ref_drive(false, text, n) =~= Seq::new(n, |i: int| if i == 0 {
        None
    } else {
        Some(self_ref_prefix() + text)
    }));
}

/// A future that was polled answers the same message to every poll.
pub proof fn lemma_self_ref_drive_polled(text: Seq<char>, n: nat)
    ensures
        self_ref_drive(true, text, n) == Seq::new(n, |i: int| Some(self_ref_prefix() + text)),
    decreases n,
{
    if n > 0 {
        lemma_self_ref_drive_polled(text, (n - 1) as nat);
    }
    assert(self_ref_drive(true, text, n) =~= Seq::new(n, |i: int| Some(self_ref_prefix() + text)));
}

/// A future that answers `Pending` on its first poll (waking its executor)
/// and from then on `Ready` with a message that quotes its string.
pub struct SelfRefFuture {
    s: String,
    polled_once: bool,
    wakes: WakeLog,
    _marker: PhantomPinned,
}

impl SelfRefFuture {
    pub closed spec fn text(self) -> Seq<char> {
        self.s@
    }

    pub closed spec fn was_polled(self) -> bool {
        self.polled_once
    }

    /// The wakers this future asked to be woken through, in order.
    pub closed spec fn woken(self) -> Seq<std::task::Waker> {
        self.wakes.woken()
    }

    /// The string the message quotes.
    pub fn string(&self) -> (r: &String)
        ensures
            r@ == self.text(),
    {
        &self.s
    }

    pub fn new(s: String) -> (r: Self)
        ensures
            r.text() == s@,
            !r.was_polled(),
            r.woken() == Seq::<std::task::Waker>::empty(),
    {
        SelfRefFuture { s, polled_once: false, wakes: WakeLog::new(), _marker: pinned_marker() }
    }

    /// The first poll wakes the executor and answers `Pending`; every later
    /// poll answers `Ready("s_ptr points to: " + s)`.
    pub fn poll(&mut self, cx: &mut Context) -> (r: Poll<String>)
        ensures
            final(self).text() == old(self).text(),
            final(self).was_polled(),
            *final(cx) == *old(cx),
            // only the first poll wakes, and it wakes the waker of `cx`
            final(self).woken() == if old(self).was_polled() {
                old(self).woken()
            } else {
                old(self).woken().push(waker_of(*old(cx)))
            },
            match r {
                Poll::Pending => self_ref_answer(old(self).was_polled(), old(self).text()) == None::<Seq<char>>,
                Poll::Ready(m) => self_ref_answer(old(self).was_polled(), old(self).text()) == Some(m@),
            },
            self_ref_polled(*old(self), *old(cx), *final(self), r),
    {
        if !self.polled_once {
            self.polled_once = true;
            self.wakes.wake(cx);
            Poll::Pending
        } else {
            let mut m = "s_ptr points to: ".to_owned();
            m.append(self.s.as_str());
            proof {
                reveal_strlit("s_ptr points to: ");
            }
            Poll::Ready(m)
        }
    }
}

/// One poll of a `SelfRefFuture`, from `before`, with context `cx`, leaving
/// `after` and answering `r`: the string is kept and the future counts as
/// polled; a first poll wakes `cx`'s waker once and answers `Pending`; a later
/// poll wakes nothing and answers the message quoting the string.
pub open spec fn self_ref_polled(before: SelfRefFuture, cx: Context, after: SelfRefFuture, r: Poll<String>) -> bool {
    &&& after.text() == before.text()
    &&& after.was_polled()
    &&& after.woken() == if before.was_polled() {
        before.woken()
    } else {
        before.woken().push(waker_of(cx))
    }
    &&& match r {
        Poll::Pending => !before.was_polled(),
        Poll::Ready(m) => before.was_polled() && m@ == self_ref_prefix() + before.text(),
    }
}

/// After `k` polls of a run that starts from a fresh future, the future has
/// been polled, keeps its string, and has woken exactly the first poll's
/// waker.
proof fn lemma_self_ref_run_prefix(
    fut: Seq<SelfRefFuture>,
    cxs: Seq<Context>,
    answers: Seq<Poll<String>>,
    k: int,
)
    requires
        fut.len() == cxs.len() + 1,
        answers.len() == cxs.len(),
        !fut[0].was_polled(),
        forall|i: int| 0 <= i < cxs.len() ==> self_ref_polled(fut[i], cxs[i], fut[i + 1], #[trigger] answers[i]),
        1 <= k <= cxs.len(),
    ensures
        fut[k].was_polled(),
        fut[k].text() == fut[0].text(),
        fut[k].woken() == fut[0].woken().push(waker_of(cxs[0])),
    decreases k,
{
    assert(self_ref_polled(fut[k - 1], cxs[k - 1], fut[k], answers[k - 1]));
    if k > 1 {
        lemma_self_ref_run_prefix(fut, cxs, answers, k - 1);
    }
}

/// Polled any number of times, a fresh `SelfRefFuture` (by `poll` or
/// `poll_not_pin`, whose contracts both give `self_ref_polled`) wakes its
/// executor exactly once, through the waker of the first poll's context; the
/// first poll answers `Pending` and every later one answers
/// `Ready("s_ptr points to: " + s)` with the string it was made with.
pub proof fn lemma_self_ref_wakes_once(fut: Seq<SelfRefFuture>, cxs: Seq<Context>, answers: Seq<Poll<String>>)
    requires
        cxs.len() >= 1,
        fut.len() == cxs.len() + 1,
        answers.len() == cxs.len(),
        !fut[0].was_polled(),
        forall|i: int| 0 <= i < cxs.len() ==> self_ref_polled(fut[i], cxs[i], fut[i + 1], #[trigger] answers[i]),
    ensures
        fut.last().woken() == fut[0].woken().push(waker_of(cxs[0])),
        answers[0] is Pending,
        forall|i: int| 1 <= i < answers.len() ==>
            (#[trigger] answers[i] matches Poll::Ready(m) && m@ == self_ref_prefix() + fut[0].text()),
{
    assert(self_ref_polled(fut[0], cxs[0], fut[1], answers[0]));
    lemma_self_ref_run_prefix(fut, cxs, answers, cxs.len() as int);
    assert(fut.last() == fut[cxs.len() as int]);
    assert forall|i: int| 1 <= i < answers.len() implies
        (#[trigger] answers[i] matches Poll::Ready(m) && m@ == self_ref_prefix() + fut[0].text()) by {
        lemma_self_ref_run_prefix(fut, cxs, answers, i);
        assert(self_ref_polled(fut[i], cxs[i], fut[i + 1], answers[i]));
    }
}

/// Two polls of one future with one context, say one by `poll` and one by
/// `poll_not_pin`, agree: the same wakes, the same state of the string and of
/// being polled, and the same answer.
pub proof fn lemma_self_ref_polls_agree(
    before: SelfRefFuture,
    cx: Context,
    after1: SelfRefFuture,
    r1: Poll<String>,
    after2: SelfRefFuture,
    r2: Poll<String>,
)
    requires
        self_ref_polled(before, cx, after1, r1),
        self_ref_polled(before, cx, after2, r2),
    ensures
        after1.woken() == after2.woken(),
        after1.text() == after2.text(),
        after1.was_polled() == after2.was_polled(),
        r1 is Pending <==> r2 is Pending,
        r1 matches Poll::Ready(m1) ==> (r2 matches Poll::Ready(m2) && m1@ == m2@),
{
}

/// A poll that takes the future by plain mutable reference instead of by pin.
pub trait FakeFuture {
    type Output;

    fn poll_not_pin(&mut self, cx: &mut Context) -> Poll<Self::Output>;
}

impl FakeFuture for SelfRefFuture {
    type Output = String;

    /// Behaves as `poll`.
    fn poll_not_pin(&mut self, cx: &mut Context) -> (r: Poll<String>)
        ensures
            final(self).text() == old(self).text(),
            final(self).was_polled(),
            *final(cx) == *old(cx),
            // only the first poll wakes, and it wakes the waker of `cx`
            final(self).woken() == if old(self).was_polled() {
                old(self).woken()
            } else {
                old(self).woken().push(waker_of(*old(cx)))
            },
            match r {
                Poll::Pending => self_ref_answer(old(self).was_polled(), old(self).text()) == None::<Seq<char>>,
                Poll::Ready(m) => self_ref_answer(old(self).was_polled(), old(self).text()) == Some(m@),
            },
            self_ref_polled(*old(self), *old(cx), *final(self), r),
    {
        self.poll(cx)
    }
}

/// Polls a fresh `SelfRefFuture` over "hello" twice with a do-nothing waker:
/// the first poll is `Pending`, the second gives the message, returned here.
pub fn pinning_futures() -> (r: Option<String>)
    ensures
        r matches Some(m) && m@ == self_ref_prefix() + "hello"@,
{
    let mut cx = context_from_waker(noop_waker());
    let mut fut = SelfRefFuture::new("hello".to_owned());
    let p = fut.poll(&mut cx);
    assert(p is Pending);
    match fut.poll(&mut cx) {
        Poll::Ready(result) => Some(result),
        Poll::Pending => None,
    }
}

} // verus!
