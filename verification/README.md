# thunkpool

A pool of worker threads that run boxed thunks, with its decisions verified
by Verus.

- `src/transport/thunk.rs`, `src/threading/thunk.rs`: boxed routines that run
  once (`FnBox`) or run once and hand back a value (`FnBoxGeneric`).
- `src/transport/messages.rs`: the signals exchanged by the owner, the master
  and the workers.
- `src/transport/return_value.rs`: what a worker hands back.
- `src/threadpooling/pool.rs`: the accepted pool sizes, the master's state
  machine (round-robin hand-out of tasks, answers to worker signals, stop) and
  the worker's state machine.
- `src/threadpooling/steal.rs`: the scan of the other queues on behalf of an
  idle worker, which moves at most one task.
- `src/threadpooling/flow.rs`: a model of where the tasks stand, with the
  proof that handing out, stealing and running keep every task, so that each
  submitted task runs exactly once.
- `app/`: the threads and channels that drive these state machines, and the
  program's `main`.
