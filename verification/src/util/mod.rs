//! Helpers at the edge of the queue.

pub mod github;
