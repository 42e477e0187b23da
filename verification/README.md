# whirl

The scheduling core of an io_uring-based asynchronous runtime, written in Verus.

`src/` is the verified library:

- `proactor`: the per-worker wake-up flag and the timers. Timer registrations
  and cancellations are queued on a bounded `concurrent_queue::ConcurrentQueue`
  and applied, oldest first, to a `BTreeMap` keyed by deadline and timer id.
  A wait fires every timer whose deadline has passed, in key order, and bounds
  the sleep by the earliest pending deadline.
- `reactor`: the submissions handed to the ring and the completions taken
  back: reserved tags, the wake-up read, the ring timeout, event collection,
  batch submission and backlog draining.
- `io`: a ring operation awaited by a task, the I/O handle, and the timer.
- `blocking`: one turn of the loop that runs a future on the current thread.
- `timer_ops`, `timer_map`, `waker`: the timer operations and their queue,
  the ordered timer table, and the task waker.

Time is counted in ticks (nanoseconds from an origin the caller picks).

`app/` holds the runtime around the library: the io_uring ring, the per-thread
driver, the futures and the blocking loop.
