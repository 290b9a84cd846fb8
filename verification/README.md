# status_executor

Runs long computations in the background, and hands out their results and the
statuses that they report on the way. The library is verified with Verus.

```rust
use status_executor::{RayonGlobalContext, StatusExecutor};

let e = StatusExecutor::new(RayonGlobalContext::default(), |s| {
    s.send(50);
    s.send(100);
    "done"
});
// the oldest status that was not looked at yet, if there is one
let next = e.status();
// the status that was sent last, new or not
let latest = e.latest_status();
// blocks until the function has returned
let result = e.wait();
```

## Layout

* `src/slot.rs`: the place where a result is left, read and taken.
* `src/internal_context.rs`: the result shared between worker and executor, and
  the traits of the contexts that work can run in.
* `src/executor.rs`: `Executor`.
* `src/channel.rs`: the queue of pending statuses and its two ends.
* `src/status.rs`: `StatusExecutor` and `StatusSender`.
* `src/rayon_context.rs`: the contexts that run work on rayon's pools.
* `src/laws.rs`: what holds of every history of results and statuses.
* `src/sync.rs`: what is taken from `std::sync` on trust.
* `app/`: `StdContext`, which starts a thread for each executor, `take_wait` in a
  form that panics, and a demonstration.

## What is proved

Whatever an executor hands out as a result is a value that the function it was
given may return, for a sender that leads to the queue of that executor.

`Slot`, `Queue` and `LastStatus` have exact contracts. `LastStatus::look_at_oldest`
and `LastStatus::look_at_all` have the whole step of `status` and `latest_status` as
their contracts: queue and memory before, answer, queue and memory after. The
contracts of the executors say that each answer comes from such an operation, on the
slot, queue or memory that the locks of that very executor uncovered, and that `new`
hands the function to the context and `InternalData::run` stores what it returns and
notifies those who wait.

The laws speak of sequences of these operations: a result stays until it is taken,
goes to one taker, and can be read again until then; a function that has returned
stays done; statuses come in the order they were sent, each once; the latest status
is the one sent last; sending succeeds exactly as long as the executor exists.

What other threads do between two calls is not modelled: a call on a shared executor
answers for one moment. That a function is run at all, and when, is left to the
context.
