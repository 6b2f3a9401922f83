//! Task execution: policies, schedules, retry, recovery and metering.
pub mod cron;
pub mod cron_laws;
pub mod laws;
pub mod observer;
pub mod run;
pub mod task;
