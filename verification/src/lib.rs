//! Scheduling and job-lifecycle core for a push-notification service.
//!
//! The library turns a schedule description (a 6-field cron expression or an
//! absolute timestamp) into entries of a job registry, decides what happens at
//! each firing (cancellation check, occurrence counting, retirement), and
//! exposes the registry for listing, inspection and removal.  Timers, HTTP
//! handling and the delivery call itself live outside the library; they hand
//! plain values in and take decisions back.

pub mod api;
pub mod clock;
pub mod config;
pub mod cron;
pub mod errors;
pub mod payload;
pub mod scheduler;
