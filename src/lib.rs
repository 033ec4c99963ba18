//! Compiles crontab entries into timer and service unit definitions.
//!
//! Cron schedules are translated into calendar expressions, whose fields
//! combine by conjunction; crontab lines are classified and parsed; each job
//! becomes a timer and a service body under a collision-free base name.

pub mod field;
pub mod schedule;
pub mod text;
pub mod unit;
pub mod parse;
pub mod compile;
pub mod named;
