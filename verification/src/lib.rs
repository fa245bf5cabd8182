//! Decisions and data of the MCIM cache synchroniser: which entries are out of
//! date, what a queue run syncs and puts back, how the daemon schedules its
//! jobs, how configuration is overridden from the environment, and how task
//! results are counted.

pub mod text;
pub mod constants;
pub mod cli;
pub mod db;
pub mod error;
pub mod config;
pub mod sync;
pub mod ids;
pub mod models;
pub mod task;
pub mod api;
pub mod daemon;
pub mod metrics;
pub mod http;
pub mod task_api;
pub mod runner;
pub mod profile;
