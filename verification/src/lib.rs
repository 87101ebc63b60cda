//! A small distributed task scheduler: tasks of three kinds (Fizz, Buzz,
//! FizzBuzz) are stored with an execution time, handed out to idle workers
//! once they are due, and marked completed when a worker is done.
//!
//! This crate holds the scheduler's logic: the task model, the text formats
//! that travel between nodes and into the task store, and the decisions of
//! the scheduler and of the workers.

pub mod text;
pub mod worker;
pub mod clock;
pub mod ids;
pub mod task;
pub mod scheduler;
pub mod store;
pub mod utils;
pub mod web;
