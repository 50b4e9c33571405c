# worker_pools

Two pools of worker threads run simulated tasks under a shared load cap of
100: a FIFO pool that hands each task to a worker as soon as its load fits, and
a round-robin pool that runs tasks in bursts of at most 50 ms, puts unfinished
tasks back in a priority queue (CPU tasks before IO tasks) and dispatches
from it.

- `src/` is the verified library: tasks and their loads (`task`), the load
  counter (`load`), round-robin bursts (`round_robin`), the pending-task queue
  on the `priority_queue` crate (`queue`), the pools' decisions (`pool`), the
  workload settings (`config`) and the generated workload on `rand`
  (`workload`).
- `app/` is the benchmark driver: threads, channels, locks, sleeping, the
  clock, the environment and printing. Run it with `fifo_pool` or
  `dynamic_pool` as its argument.
- `tests/` exercises the library.
