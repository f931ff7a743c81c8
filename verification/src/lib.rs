//! Chunked, resumable execution of a bulk byte transform.
//!
//! A long buffer is transformed in bounded chunks so that the scheduler that
//! hosts the work is never starved. After each chunk the share of the host's
//! quantum that the chunk used is charged; when the host declares the quantum
//! exhausted, the chunk size for the next episode is adapted and the task is
//! packaged as a continuation that the host hands back later.

pub mod transform;
pub mod planner;
pub mod monitor;
pub mod sizer;
pub mod state;
pub mod task;
pub mod run;
