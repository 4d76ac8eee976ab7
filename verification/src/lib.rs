//! Hand-written futures as verified state machines: a future ordered after
//! others, the desugared forms of three small async functions, and a future
//! that must be polled in place.
pub mod record;
pub mod task;
pub mod signal;
pub mod dag;
pub mod handrolled;
pub mod pinning;

pub use task::Poll;
pub use dag::DagFuture;
pub use handrolled::{
    bar_desugared, baz_desugared, foo_desugared, BarFuture, BazFuture, FooFuture, TimerAction,
    TimerEvent,
};
pub use pinning::{
    pinning_an_unpin_does_nothing, pinning_futures, pinning_not_unpin_disallows_getting_mut,
    FakeFuture, SelfRefFuture,
};
