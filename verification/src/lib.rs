//! A fixed-size worker pool: a bounded set of long-lived workers that take
//! jobs from one shared first-in, first-out queue, with a graceful shutdown.
//!
//! The library holds the pool's data and every decision it makes; threads,
//! locks and sockets belong to the program around it. `message`, `queue`,
//! `worker` and `pool` are the parts, `protocol` states what holds of them
//! together under every schedule, and `http` is what the jobs of the web
//! server compute.

pub mod http;
pub mod message;
pub mod pool;
pub mod protocol;
pub mod queue;
pub mod worker;
