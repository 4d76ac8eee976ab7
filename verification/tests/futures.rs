use pinned_futures::handrolled::{BarState, TIMEOUT_SEC};
use pinned_futures::{
    bar_desugared, baz_desugared, foo_desugared, pinning_an_unpin_does_nothing, pinning_futures,
    pinning_not_unpin_disallows_getting_mut, DagFuture, FakeFuture, Poll, SelfRefFuture,
    TimerAction, TimerEvent,
};
use std::task::{Context, Waker};

fn cx() -> Context<'static> {
    Context::from_waker(Waker::noop())
}

#[test]
fn foo_is_ready_at_once_and_again() {
    let mut cx = cx();
    let mut f = foo_desugared();
    assert_eq!(f.poll(&mut cx), Poll::Ready(69));
    assert_eq!(f.poll(&mut cx), Poll::Ready(69));
}

#[test]
fn bar_sleeps_then_yields_69() {
    let mut f = bar_desugared();
    assert_eq!(f.step(TimerEvent::Polled), TimerAction::StartTimer(TIMEOUT_SEC));
    assert_eq!(f.step(TimerEvent::TimerPending), TimerAction::Return(Poll::Pending));
    assert_eq!(f.step(TimerEvent::Polled), TimerAction::PollTimer);
    assert_eq!(f.step(TimerEvent::TimerPending), TimerAction::Return(Poll::Pending));
    assert_eq!(f.step(TimerEvent::Polled), TimerAction::PollTimer);
    assert_eq!(f.step(TimerEvent::TimerFired), TimerAction::Return(Poll::Ready(69)));
}

#[test]
fn bar_ready_on_first_poll_when_timer_fires_at_once() {
    let mut f = bar_desugared();
    assert_eq!(f.step(TimerEvent::Polled), TimerAction::StartTimer(1));
    assert_eq!(f.step(TimerEvent::TimerFired), TimerAction::Return(Poll::Ready(69)));
}

#[test]
fn bar_states_are_distinct() {
    assert_ne!(BarState::Start, BarState::Done);
}

#[test]
fn baz_keeps_its_string_and_yields_42069() {
    let mut f = baz_desugared();
    assert_eq!(f.step(TimerEvent::Polled), TimerAction::StartTimer(1));
    assert_eq!(f.step(TimerEvent::TimerPending), TimerAction::Return(Poll::Pending));
    assert_eq!(f.step(TimerEvent::Polled), TimerAction::PollTimer);
    assert_eq!(f.step(TimerEvent::TimerFired), TimerAction::Return(Poll::Ready(42069)));
}

#[test]
fn self_ref_future_pending_then_ready() {
    let mut cx = cx();
    let mut f = SelfRefFuture::new(String::from("hello"));
    assert_eq!(f.poll(&mut cx), Poll::Pending);
    assert_eq!(f.poll(&mut cx), Poll::Ready(String::from("s_ptr points to: hello")));
    assert_eq!(f.poll(&mut cx), Poll::Ready(String::from("s_ptr points to: hello")));
}

#[test]
fn poll_not_pin_behaves_as_poll() {
    let mut cx = cx();
    let mut f = SelfRefFuture::new(String::from("abc"));
    assert_eq!(f.poll_not_pin(&mut cx), Poll::Pending);
    // moving the future between polls is harmless: it keeps no address of itself
    let mut moved = f;
    assert_eq!(moved.poll_not_pin(&mut cx), Poll::Ready(String::from("s_ptr points to: abc")));
}

#[test]
fn pinning_futures_reads_the_string() {
    assert_eq!(pinning_futures(), Some(String::from("s_ptr points to: hello")));
}

#[test]
fn pinning_demos_run() {
    pinning_an_unpin_does_nothing();
    pinning_not_unpin_disallows_getting_mut();
}

fn count(x: &mut i32, _cx: &mut Context) -> Poll<i32> {
    *x += 1;
    Poll::Ready(*x)
}

fn stay_pending(x: &mut i32, _cx: &mut Context) -> Poll<i32> {
    *x += 100;
    Poll::Pending
}

#[test]
fn dag_without_edges_polls_inner_at_once() {
    let mut cx = cx();
    let mut f = DagFuture::new(41);
    assert_eq!(f.poll(&mut cx, count), Poll::Ready(42));
}

#[test]
fn dag_successor_waits_for_predecessor() {
    let mut cx = cx();
    let mut a = DagFuture::new(0);
    let mut b = DagFuture::new(10);
    a.before(&mut b);
    // b is blocked: its inner future is not polled, so its counter stays 10
    assert_eq!(b.poll(&mut cx, count), Poll::Pending);
    assert_eq!(b.poll(&mut cx, count), Poll::Pending);
    // a has no predecessor; when it becomes ready it signals b
    assert_eq!(a.poll(&mut cx, count), Poll::Ready(1));
    assert_eq!(b.poll(&mut cx, count), Poll::Ready(11));
}

#[test]
fn dag_pending_inner_does_not_signal() {
    let mut cx = cx();
    let mut a = DagFuture::new(0);
    let mut b = DagFuture::new(0);
    a.before(&mut b);
    assert_eq!(a.poll(&mut cx, stay_pending), Poll::Pending);
    assert_eq!(b.poll(&mut cx, count), Poll::Pending);
    assert_eq!(a.poll(&mut cx, count), Poll::Ready(101));
    assert_eq!(b.poll(&mut cx, count), Poll::Ready(1));
}

#[test]
fn dag_chain_of_three() {
    let mut cx = cx();
    let mut f1 = DagFuture::new(1);
    let mut f2 = DagFuture::new(2);
    let mut f3 = DagFuture::new(3);
    f1.before(&mut f2);
    f2.before(&mut f3);
    assert_eq!(f3.poll(&mut cx, count), Poll::Pending);
    assert_eq!(f2.poll(&mut cx, count), Poll::Pending);
    assert_eq!(f1.poll(&mut cx, count), Poll::Ready(2));
    assert_eq!(f3.poll(&mut cx, count), Poll::Pending);
    assert_eq!(f2.poll(&mut cx, count), Poll::Ready(3));
    assert_eq!(f3.poll(&mut cx, count), Poll::Ready(4));
}

#[test]
fn dag_waits_for_every_predecessor() {
    let mut cx = cx();
    let mut a = DagFuture::new(0);
    let mut b = DagFuture::new(0);
    let mut c = DagFuture::new(0);
    a.before(&mut c);
    b.before(&mut c);
    assert_eq!(a.poll(&mut cx, count), Poll::Ready(1));
    assert_eq!(c.poll(&mut cx, count), Poll::Pending);
    assert_eq!(b.poll(&mut cx, count), Poll::Ready(1));
    assert_eq!(c.poll(&mut cx, count), Poll::Ready(1));
}

#[test]
fn dag_dropped_predecessor_releases_successor() {
    let mut cx = cx();
    let mut a = DagFuture::new(0);
    let mut b = DagFuture::new(5);
    a.before(&mut b);
    drop(a);
    assert_eq!(b.poll(&mut cx, count), Poll::Ready(6));
}

#[test]
fn dag_cycle_never_starts() {
    let mut cx = cx();
    let mut a = DagFuture::new(0);
    let mut b = DagFuture::new(0);
    a.before(&mut b);
    b.before(&mut a);
    for _ in 0..3 {
        assert_eq!(a.poll(&mut cx, count), Poll::Pending);
        assert_eq!(b.poll(&mut cx, count), Poll::Pending);
    }
}

#[test]
fn dag_ready_successor_stays_unblocked() {
    let mut cx = cx();
    let mut a = DagFuture::new(0);
    let mut b = DagFuture::new(0);
    a.before(&mut b);
    assert_eq!(a.poll(&mut cx, count), Poll::Ready(1));
    assert_eq!(b.poll(&mut cx, stay_pending), Poll::Pending);
    assert_eq!(b.poll(&mut cx, count), Poll::Ready(101));
}

struct CountWakes(std::sync::atomic::AtomicUsize);

impl std::task::Wake for CountWakes {
    fn wake(self: std::sync::Arc<Self>) {
        self.0.fetch_add(1, std::sync::atomic::Ordering::SeqCst);
    }
    fn wake_by_ref(self: &std::sync::Arc<Self>) {
        self.0.fetch_add(1, std::sync::atomic::Ordering::SeqCst);
    }
}

#[test]
fn self_ref_future_wakes_on_first_poll_only() {
    let count = std::sync::Arc::new(CountWakes(std::sync::atomic::AtomicUsize::new(0)));
    let waker = Waker::from(count.clone());
    let mut cx = Context::from_waker(&waker);
    let mut f = SelfRefFuture::new(String::from("x"));
    assert_eq!(f.string(), "x");
    assert_eq!(f.poll(&mut cx), Poll::Pending);
    assert_eq!(count.0.load(std::sync::atomic::Ordering::SeqCst), 1);
    assert_eq!(f.poll(&mut cx), Poll::Ready(String::from("s_ptr points to: x")));
    assert_eq!(f.poll(&mut cx), Poll::Ready(String::from("s_ptr points to: x")));
    assert_eq!(count.0.load(std::sync::atomic::Ordering::SeqCst), 1);
}

#[test]
fn dag_pending_predecessor_wakes_successor_when_done() {
    let count = std::sync::Arc::new(CountWakes(std::sync::atomic::AtomicUsize::new(0)));
    let waker = Waker::from(count.clone());
    let mut bcx = Context::from_waker(&waker);
    let mut acx = cx();
    let mut a = DagFuture::new(0);
    let mut b = DagFuture::new(0);
    a.before(&mut b);
    assert_eq!(b.poll(&mut bcx, count_up), Poll::Pending);
    assert_eq!(count.0.load(std::sync::atomic::Ordering::SeqCst), 0);
    assert_eq!(a.poll(&mut acx, count_up), Poll::Ready(1));
    // a's signal wakes the waker b left with its receiver
    assert_eq!(count.0.load(std::sync::atomic::Ordering::SeqCst), 1);
    assert_eq!(b.poll(&mut bcx, count_up), Poll::Ready(1));
}

fn count_up(x: &mut i32, _cx: &mut Context) -> Poll<i32> {
    *x += 1;
    Poll::Ready(*x)
}
