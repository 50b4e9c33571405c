//! Load-capped worker pools: the scheduling decisions of a FIFO pool and of a
//! round-robin pool, the priority queue of pending work, and the workload
//! configuration of the benchmark driver.
pub mod task;
pub mod load;
pub mod round_robin;
pub mod queue;
pub mod config;
pub mod workload;
pub mod draws;
pub mod pool;
