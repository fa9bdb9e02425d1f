//! The core of an HTTP load generator: a fixed pool of workers is admitted
//! into a run by a dispatcher, which bounds the run by a count of requests or
//! by a length of time and meters it through a rate limiter; the outcome of
//! every request is taken into statistics, from which the figures of the run
//! are drawn when it is over.
//!
//! Everything here is sequential and takes the time as an argument. Sending
//! requests, sleeping and waiting for signals are left to the program around
//! the library, which hands each event to a [`Task`] and does what the task
//! answers. Every function carries a contract that is proved of its body;
//! what is taken on trust of other crates stands in the few functions that
//! call them.
//!
//! - [`arg`]: the options of a run and the values that are read from text
//! - [`limiter`]: the rate limiter
//! - [`dispatcher`]: admission by count or by time
//! - [`statistics`]: counters, samples and the summary
//! - [`numeric`]: the arithmetic behind the summary
//! - [`percentile`]: percentiles as exact fractions
//! - [`output`]: the figures as they are handed out, and the report in text
//! - [`request`]: headers and bodies that the options ask for
//! - [`task`]: the run as a whole

pub mod arg;
pub mod dispatcher;
pub mod limiter;
pub mod numeric;
pub mod output;
pub mod percentile;
pub mod request;
pub mod statistics;
pub mod task;

pub use self::arg::Arg;
pub use self::output::Output;
pub use self::task::Task;
