//! Ownership, borrowing and concurrency idioms with verified contracts, and a
//! small bounded work-distribution pipeline built from them.

pub mod basics;
pub mod bounds;
pub mod cells;
pub mod deref;
pub mod generics;
pub mod lifetimes;
pub mod replace;

pub mod channel;
pub mod pipeline;
pub mod pool;
pub mod queue;
pub mod work;
