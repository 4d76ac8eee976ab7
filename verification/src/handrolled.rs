//! Hand-desugared versions of three small async functions: one that is ready
//! at once, one that sleeps, and one that keeps a string across its sleep.
//!
//! The futures that sleep are state machines: each call of `step` takes what
//! happened (the executor polled, or the timer answered) and says what to do
//! next (start the timer, poll it, or answer the executor).  The timer itself
//! belongs to the caller.
use vstd::prelude::*;
use vstd::string::*;
use std::task::Context;
use crate::task::Poll;

verus! {

/// How long the sleeping futures wait, in seconds.
pub const TIMEOUT_SEC: u64 = 1;

/// The value that `foo` and `bar` produce.
pub const ANSWER: i32 = 69;

// ---------------------------------------------------------------- foo

/// The future that is ready at once.
pub struct FooFuture;

/// Builds the future that `async fn foo` stands for.
pub fn foo_desugared() -> FooFuture {
    FooFuture
}

impl FooFuture {
    /// Ready on every poll, with 69.
    pub fn poll(&mut self, _cx: &mut Context) -> (r: Poll<i32>)
        ensures
            r == Poll::Ready(ANSWER),
            *final(_cx) == *old(_cx),
    {
        Poll::Ready(ANSWER)
    }
}

// ---------------------------------------------------------------- events and actions

/// What the caller reports to a sleeping future.
#[derive(Debug, PartialEq, Eq, Clone, Copy)]
pub enum TimerEvent {
    /// The executor polled the future.
    Polled,
    /// The timer was polled and has not fired yet.
    TimerPending,
    /// The timer was polled and has fired.
    TimerFired,
}

/// What a sleeping future asks its caller to do next.
#[derive(Debug, PartialEq, Eq, Clone)]
pub enum TimerAction<T> {
    /// Start a timer of this many seconds, poll it, and report the outcome.
    StartTimer(u64),
    /// Poll the running timer and report the outcome.
    PollTimer,
    /// Answer the executor with this.
    Return(Poll<T>),
}

/// The event that reports a poll of the timer.
pub open spec fn timer_outcome(fired: bool) -> TimerEvent {
    if fired { TimerEvent::TimerFired } else { TimerEvent::TimerPending }
}

// ---------------------------------------------------------------- bar

/// Where `bar` stands: not started, waiting for its timer, or finished.
#[derive(Debug, PartialEq, Eq, Clone, Copy)]
pub enum BarState {
    Start,
    Sleeping,
    Done,
}

/// The future that sleeps for `TIMEOUT_SEC` and then yields 69.
pub struct BarFuture {
    state: BarState,
}

impl View for BarFuture {
    type V = BarState;

    closed spec fn view(&self) -> BarState {
        self.state
    }
}

/// The events a `bar` future in `s` can take.  A finished future takes none:
/// polling it again is a caller error.
pub open spec fn bar_accepts(s: BarState, e: TimerEvent) -> bool {
    match s {
        BarState::Start => e is Polled,
        BarState::Sleeping => true,
        BarState::Done => false,
    }
}

/// The transition of a `bar` future.
pub open spec fn bar_next(s: BarState, e: TimerEvent) -> (BarState, TimerAction<i32>) {
    match s {
        BarState::Start => (BarState::Sleeping, TimerAction::StartTimer(TIMEOUT_SEC)),
        BarState::Sleeping => match e {
            TimerEvent::Polled => (BarState::Sleeping, TimerAction::PollTimer),
            TimerEvent::TimerPending => (BarState::Sleeping, TimerAction::Return(Poll::Pending)),
            TimerEvent::TimerFired => (BarState::Done, TimerAction::Return(Poll::Ready(ANSWER))),
        },
        BarState::Done => (BarState::Done, TimerAction::Return(Poll::Pending)),
    }
}

/// Builds the future that `async fn bar` stands for.
pub fn bar_desugared() -> (f: BarFuture)
    ensures
        f@ == BarState::Start,
{
    BarFuture { state: BarState::Start }
}

impl BarFuture {
    /// Whether the future has yielded its value; a finished future must not
    /// be polled again.
    pub fn is_finished(&self) -> (r: bool)
        ensures
            r == (self@ is Done),
    {
        match self.state {
            BarState::Done => true,
            _ => false,
        }
    }

    /// Takes one event and gives the next action.
    pub fn step(&mut self, e: TimerEvent) -> (a: TimerAction<i32>)
        requires
            bar_accepts(old(self)@, e),
        ensures
            (final(self)@, a) == bar_next(old(self)@, e),
    {
        match self.state {
            BarState::Start => {
                self.state = BarState::Sleeping;
                TimerAction::StartTimer(TIMEOUT_SEC)
            },
            BarState::Sleeping => match e {
                TimerEvent::Polled => TimerAction::PollTimer,
                TimerEvent::TimerPending => TimerAction::Return(Poll::Pending),
                TimerEvent::TimerFired => {
                    self.state = BarState::Done;
                    TimerAction::Return(Poll::Ready(ANSWER))
                },
            },
            BarState::Done => TimerAction::Return(Poll::Pending),
        }
    }
}

/// One executor poll of a `bar` future whose timer, when polled, reports
/// `fired`: the poll event, then the timer's outcome.
pub open spec fn bar_poll(s: BarState, fired: bool) -> (BarState, Poll<i32>) {
    let (s1, a1) = bar_next(s, TimerEvent::Polled);
    let (s2, a2) = bar_next(s1, timer_outcome(fired));
    (s2, match a2 {
        TimerAction::Return(p) => p,
        _ => Poll::Pending,
    })
}

/// What a `bar` future in `s` answers to a run of executor polls, the `i`th
/// of which finds the timer fired when `fired[i]`; the run stops once the
/// future has finished.
pub open spec fn bar_drive(s: BarState, fired: Seq<bool>) -> Seq<Poll<i32>>
    decreases fired.len(),
{
    if fired.len() == 0 || s is Done {
        Seq::empty()
    } else {
        let (s1, p) = bar_poll(s, fired[0]);
        seq![p] + bar_drive(s1, fired.drop_first())
    }
}

/// One executor poll of an unfinished `bar` future takes exactly the events
/// the future accepts, and answers `Ready(69)` (finishing it) when the timer
/// has fired, `Pending` (leaving it asleep) when it has not.
pub proof fn lemma_bar_poll(s: BarState, fired: bool)
    requires
        !(s is Done),
    ensures
        bar_accepts(s, TimerEvent::Polled),
        bar_accepts(bar_next(s, TimerEvent::Polled).0, timer_outcome(fired)),
        bar_poll(s, fired) == (if fired {
            (BarState::Done, Poll::Ready(ANSWER))
        } else {
            (BarState::Sleeping, Poll::<i32>::Pending)
        }),
{
}

/// Driven poll after poll, an unfinished `bar` future answers `Pending` until
/// the poll that finds its timer fired, answers `Ready(69)` there, and is then
/// finished, so that it answers nothing more.
pub proof fn lemma_bar_drive(s: BarState, fired: Seq<bool>, k: int)
    requires
        !(s is Done),
        0 <= k < fired.len(),
        fired[k],
        forall|i: int| 0 <= i < k ==> !fired[i],
    ensures
        bar_drive(s, fired) == Seq::new((k + 1) as nat, |i: int| if i == k {
            Poll::Ready(ANSWER)
        } else {
            Poll::<i32>::Pending
        }),
    decreases k,
{
    lemma_bar_poll(s, fired[0]);
    let rest = fired.drop_first();
    if k == 0 {
        assert(bar_drive(BarState::Done, rest) == Seq::<Poll<i32>>::empty());
        assert(bar_drive(s, fired) =~= Seq::new(1, |i: int| if i == 0 {
            Poll::Ready(ANSWER)
        } else {
            Poll::<i32>::Pending
        }));
    } else {
        assert forall|i: int| 0 <= i < k - 1 implies !rest[i] by {
            assert(rest[i] == fired[i + 1]);
        }
        lemma_bar_drive(BarState::Sleeping, rest, k - 1);
        assert(bar_drive(s, fired) =~= Seq::new((k + 1) as nat, |i: int| if i == k {
            Poll::Ready(ANSWER)
        } else {
            Poll::<i32>::Pending
        }));
    }
}

// ---------------------------------------------------------------- parsing

/// Whether every character of `s` is an ASCII decimal digit.
pub open spec fn all_digits(s: Seq<char>) -> bool {
    forall|i: int| 0 <= i < s.len() ==> '0' <= #[trigger] s[i] && s[i] <= '9'
}

/// The number that the decimal digits `s` write.
pub open spec fn digits_value(s: Seq<char>) -> int
    decreases s.len(),
{
    if s.len() == 0 {
        0
    } else {
        digits_value(s.drop_last()) * 10 + (s.last() as int - '0' as int)
    }
}

/// What `str::parse::<i32>` gives for `s`, as its documentation says: an
/// optional `+` or `-` followed by at least one decimal digit and nothing
/// else, whose value fits in an `i32`; anything else is an error.
pub open spec fn parse_i32_spec(s: Seq<char>) -> Option<i32> {
    let signed = s.len() > 0 && (s[0] == '+' || s[0] == '-');
    let digits = if signed { s.drop_first() } else { s };
    let value = if signed && s[0] == '-' { -digits_value(digits) } else { digits_value(digits) };
    if digits.len() == 0 || !all_digits(digits) || value < i32::MIN || value > i32::MAX {
        None
    } else {
        Some(value as i32)
    }
}

/// Calls `str::parse::<i32>`; `None` stands for its error.
#[verifier::external_body]
fn parse_i32(s: &str) -> (r: Option<i32>)
    ensures
        r == parse_i32_spec(s@),
{
    s.parse::<i32>().ok()
}

// ---------------------------------------------------------------- baz

/// The string that `baz` keeps across its sleep.
pub open spec fn baz_text() -> Seq<char> {
    "420"@
}

/// What `baz` yields once its timer has fired, from the string it kept.
pub open spec fn baz_value(kept: Seq<char>) -> int {
    parse_i32_spec(kept)->Some_0 * 100 + ANSWER
}

/// Where `baz` stands, with the kept string seen as characters.
pub enum BazPhase {
    Start,
    Waiting(Seq<char>),
    Done,
}

/// Where `baz` stands: not started, waiting for its timer with the string it
/// keeps, or finished.
pub enum BazState {
    Start,
    Waiting { s: String },
    Done,
}

/// The future that makes the string "420", sleeps for `TIMEOUT_SEC`, and then
/// yields the string's number times 100 plus 69.
pub struct BazFuture {
    state: BazState,
}

impl View for BazFuture {
    type V = BazPhase;

    closed spec fn view(&self) -> BazPhase {
        match self.state {
            BazState::Start => BazPhase::Start,
            BazState::Waiting { s } => BazPhase::Waiting(s@),
            BazState::Done => BazPhase::Done,
        }
    }
}

/// A `baz` future waits only with the string it made itself.
pub open spec fn baz_wf(p: BazPhase) -> bool {
    p matches BazPhase::Waiting(t) ==> t == baz_text()
}

/// The events a `baz` future in `p` can take: none once it has finished.
pub open spec fn baz_accepts(p: BazPhase, e: TimerEvent) -> bool {
    match p {
        BazPhase::Start => e is Polled,
        BazPhase::Waiting(_) => true,
        BazPhase::Done => false,
    }
}

/// The transition of a `baz` future.
pub open spec fn baz_next(p: BazPhase, e: TimerEvent) -> (BazPhase, TimerAction<i32>) {
    match p {
        BazPhase::Start => (BazPhase::Waiting(baz_text()), TimerAction::StartTimer(TIMEOUT_SEC)),
        BazPhase::Waiting(t) => match e {
            TimerEvent::Polled => (p, TimerAction::PollTimer),
            TimerEvent::TimerPending => (p, TimerAction::Return(Poll::Pending)),
            TimerEvent::TimerFired => (
                BazPhase::Done,
                TimerAction::Return(Poll::Ready(baz_value(t) as i32)),
            ),
        },
        BazPhase::Done => (BazPhase::Done, TimerAction::Return(Poll::Pending)),
    }
}

/// "420" parses to 420, so `baz` yields 42069.
pub proof fn lemma_baz_value()
    ensures
        parse_i32_spec(baz_text()) == Some(420i32),
        baz_value(baz_text()) == 42069,
{
    reveal_strlit("420");
    let t = baz_text();
    assert(t.len() == 3);
    assert(t[0] == '4' && t[1] == '2' && t[2] == '0');
    assert(all_digits(t));
    let t2 = t.drop_last();
    let t1 = t2.drop_last();
    let t0 = t1.drop_last();
    assert(t0.len() == 0);
    assert(t1.last() == '4');
    assert(t2.last() == '2');
    assert(digits_value(t0) == 0);
    assert(digits_value(t1) == 4);
    assert(digits_value(t2) == 42);
    assert(digits_value(t) == 420);
}

/// Builds the future that `async fn baz` stands for.
pub fn baz_desugared() -> (f: BazFuture)
    ensures
        f@ == BazPhase::Start,
{
    BazFuture { state: BazState::Start }
}

impl BazFuture {
    /// A `baz` future waits only with the string it made itself.
    #[verifier::type_invariant]
    closed spec fn inv(self) -> bool {
        baz_wf(self@)
    }

    /// Whether the future has yielded its value; a finished future must not
    /// be polled again.
    pub fn is_finished(&self) -> (r: bool)
        ensures
            r == (self@ is Done),
    {
        match self.state {
            BazState::Done => true,
            _ => false,
        }
    }

    /// Takes one event and gives the next action.
    pub fn step(&mut self, e: TimerEvent) -> (a: TimerAction<i32>)
        requires
            baz_accepts(old(self)@, e),
        ensures
            baz_wf(old(self)@),
            baz_wf(final(self)@),
            (final(self)@, a) == baz_next(old(self)@, e),
            a matches TimerAction::Return(Poll::Ready(v)) ==> v == 42069,
    {
        proof {
            use_type_invariant(&*self);
            lemma_baz_value();
        }
        match &self.state {
            BazState::Start => {
                let s = "420".to_owned();
                proof {
                    reveal_strlit("420");
                }
                self.state = BazState::Waiting { s };
                TimerAction::StartTimer(TIMEOUT_SEC)
            },
            BazState::Waiting { s } => match e {
                TimerEvent::Polled => TimerAction::PollTimer,
                TimerEvent::TimerPending => TimerAction::Return(Poll::Pending),
                TimerEvent::TimerFired => {
                    let n = parse_i32(s.as_str()).unwrap();
                    self.state = BazState::Done;
                    TimerAction::Return(Poll::Ready(n * 100 + ANSWER))
                },
            },
            BazState::Done => TimerAction::Return(Poll::Pending),
        }
    }
}

/// One executor poll of a `baz` future whose timer, when polled, reports
/// `fired`: the poll event, then the timer's outcome.
pub open spec fn baz_poll(p: BazPhase, fired: bool) -> (BazPhase, Poll<i32>) {
    let (p1, a1) = baz_next(p, TimerEvent::Polled);
    let (p2, a2) = baz_next(p1, timer_outcome(fired));
    (p2, match a2 {
        TimerAction::Return(r) => r,
        _ => Poll::Pending,
    })
}

/// What a `baz` future in `p` answers to a run of executor polls, the `i`th
/// of which finds the timer fired when `fired[i]`; the run stops once the
/// future has finished.
pub open spec fn baz_drive(p: BazPhase, fired: Seq<bool>) -> Seq<Poll<i32>>
    decreases fired.len(),
{
    if fired.len() == 0 || p is Done {
        Seq::empty()
    } else {
        let (p1, r) = baz_poll(p, fired[0]);
        seq![r] + baz_drive(p1, fired.drop_first())
    }
}

/// One executor poll of an unfinished, well-formed `baz` future takes exactly
/// the events the future accepts, keeps it well formed, and answers
/// `Ready(42069)` (finishing it) when the timer has fired, `Pending` (leaving
/// it waiting with its string) when it has not.
pub proof fn lemma_baz_poll(p: BazPhase, fired: bool)
    requires
        !(p is Done),
        baz_wf(p),
    ensures
        baz_accepts(p, TimerEvent::Polled),
        baz_accepts(baz_next(p, TimerEvent::Polled).0, timer_outcome(fired)),
        baz_wf(baz_poll(p, fired).0),
        baz_poll(p, fired) == (if fired {
            (BazPhase::Done, Poll::Ready(42069i32))
        } else {
            (BazPhase::Waiting(baz_text()), Poll::<i32>::Pending)
        }),
{
    lemma_baz_value();
}

/// Driven poll after poll, an unfinished `baz` future answers `Pending` until
/// the poll that finds its timer fired, answers `Ready(42069)` there, and is
/// then finished, so that it answers nothing more.
pub proof fn lemma_baz_drive(p: BazPhase, fired: Seq<bool>, k: int)
    requires
        !(p is Done),
        baz_wf(p),
        0 <= k < fired.len(),
        fired[k],
        forall|i: int| 0 <= i < k ==> !fired[i],
    ensures
        baz_drive(p, fired) == Seq::new((k + 1) as nat, |i: int| if i == k {
            Poll::Ready(42069i32)
        } else {
            Poll::<i32>::Pending
        }),
    decreases k,
{
    lemma_baz_poll(p, fired[0]);
    let rest = fired.drop_first();
    if k == 0 {
        assert(baz_drive(BazPhase::Done, rest) == Seq::<Poll<i32>>::empty());
        assert(baz_drive(p, fired) =~= Seq::new(1, |i: int| if i == 0 {
            Poll::Ready(42069i32)
        } else {
            Poll::<i32>::Pending
        }));
    } else {
        assert forall|i: int| 0 <= i < k - 1 implies !rest[i] by {
            assert(rest[i] == fired[i + 1]);
        }
        lemma_baz_drive(BazPhase::Waiting(baz_text()), rest, k - 1);
        assert(baz_drive(p, fired) =~= Seq::new((k + 1) as nat, |i: int| if i == k {
            Poll::Ready(42069i32)
        } else {
            Poll::<i32>::Pending
        }));
    }
}

/// A `bar` future goes from fresh to asleep to finished and never back: only
/// a fresh one asks for a timer, so the timer is started once, and it
/// finishes exactly on the event that reports its timer fired.
pub proof fn lemma_bar_phases(s: BarState, e: TimerEvent)
    requires
        bar_accepts(s, e),
    ensures
        !(bar_next(s, e).0 is Start),
        bar_next(s, e).1 is StartTimer <==> s is Start,
        bar_next(s, e).0 is Done <==> (s is Sleeping && e is TimerFired),
{
}

/// A `baz` future goes from fresh to waiting with "420" to finished and never
/// back: only a fresh one asks for a timer, so the timer is started once, it
/// keeps the same string while it waits, and it finishes exactly on the event
/// that reports its timer fired.
pub proof fn lemma_baz_phases(p: BazPhase, e: TimerEvent)
    requires
        baz_wf(p),
        baz_accepts(p, e),
    ensures
        !(baz_next(p, e).0 is Start),
        baz_next(p, e).1 is StartTimer <==> p is Start,
        baz_next(p, e).0 is Done <==> (p is Waiting && e is TimerFired),
        !(baz_next(p, e).0 is Done) ==> baz_next(p, e).0 == BazPhase::Waiting(baz_text()),
{
}

} // verus!
