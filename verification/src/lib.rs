//! The engine of a small continuous-integration daemon for a code-review
//! server.
//!
//! The daemon polls the server for changes and their comments, matches the
//! comments against configured triggers, and starts a job for each trigger
//! that fires; other jobs are started by cron schedules.  This crate holds
//! what the daemon decides: which comments trigger what, which triggers a
//! later comment has cancelled, how jobs are numbered, named and recorded,
//! and when to poll, to look at the schedules and to sleep.  Reading the
//! clock, the network, the database and the file system, and starting
//! processes, is left to the program around it, which feeds this crate
//! what it has read and does what this crate answers.
//!
//! Every function is verified against its contract.  Calls into the
//! `regex`, `cron` and `chrono` crates and a few of the standard library
//! are made through functions whose contracts are believed, not proved;
//! each says so in its documentation.

pub mod autorestart;
pub mod bindings;
pub mod captures;
pub mod comment_triggers;
pub mod database;
pub mod gerrit_interact;
pub mod gerrit_types;
pub mod html_gen;
pub mod job_mgmt;
pub mod lists;
pub mod models;
pub mod paths;
pub mod pattern;
pub mod runtime_data;
pub mod s5ci_config;
pub mod schedule;
pub mod scheduler;
pub mod template;
pub mod text;
