//! Verified core of `timr`, a command-line time tracker: command parsing,
//! task bookkeeping decisions, colour parsing and configuration handling.

pub mod text;
pub mod task;
pub mod task_instance;
pub mod controller;
pub mod cli;
pub mod config;
pub mod web;
pub mod laws;
