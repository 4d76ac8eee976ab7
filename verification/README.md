# pinned_futures

Small hand-written futures, verified with Verus.

- `src/dag.rs`: `DagFuture`, a future that polls its inner future only after
  every future ordered before it (`before`) has finished, and then signals the
  futures ordered after it.
- `src/signal.rs`: the tokio one-shot channels that carry the signals, and a
  ghost record of every poll of a receiver and every send.
- `src/handrolled.rs`: the futures behind three async functions: one ready at
  once (`foo_desugared`), one that sleeps (`bar_desugared`), and one that keeps
  a string across its sleep (`baz_desugared`). The sleeping ones are state
  machines stepped by the caller, who owns the timer.
- `src/pinning.rs`: values with and without `Unpin`, and `SelfRefFuture`,
  which answers `Pending` once and then a message quoting its string.
- `src/task.rs`: the poll result and the executor context.
- `app/`: the demonstration program. It wraps the library's futures as std
  futures (pinning, tokio timers) and prints what they yield; it also holds
  an Arrow round trip of floating-point rows.
