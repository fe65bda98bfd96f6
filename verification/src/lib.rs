//! A promise execution framework for periodically re-invoked trading tasks:
//! promises are persisted records with run statistics and scheduling
//! parameters, materialized into scheduler tasks, invoked under a
//! concurrency cap, logged through a bounded channel, and recovered from
//! the durable store on startup.

pub mod api;
pub mod database;
pub mod service;
pub mod text;
pub mod time;
pub mod unique;
