//! A task dispatcher for CPU-bound and I/O-bound work: task bookkeeping,
//! reproducible task generation, the FIFO and weighted round-robin
//! scheduling decisions, and the metrics that a simulation run collects.
//!
//! Time is measured in nanoseconds. An instant is the number of nanoseconds
//! since a fixed epoch of a monotonic clock chosen by the caller; a duration
//! is a number of nanoseconds.
pub mod task;
pub mod config;
pub mod dispatcher;
pub mod history;
pub mod metrics;
pub mod random;
pub mod generator;
