//! A job queue: jobs are enqueued, claimed under a timed lease, completed or
//! failed (with bounded retries), and every mutation can be replayed from an
//! event log to rebuild the exact same state.

pub mod api;
pub mod clock;
pub mod durable;
pub mod error;
pub mod event;
pub mod laws;
pub mod metrics;
pub mod persist;
pub mod replay;
pub mod space;
pub mod text;
pub mod trace;
pub mod types;
