//! The decision core of a fixed-size worker pool.
//!
//! The pool keeps one shared FIFO of jobs and a fixed set of workers. Every
//! change of state goes through a method of [`pool::ThreadPool`], whose
//! contract names the transition of the abstract machine in [`model`] that it
//! performs. The code that owns the threads performs what the methods return
//! (run this job, block, exit, join that worker) and reports back.

pub mod guarantees;
pub mod http;
pub mod model;
pub mod pool;
pub mod worker;
