//! The records that the daemon persists.  Times are milliseconds of the
//! local wall clock since the epoch.

use vstd::prelude::*;

verus! {

/// How many comments of a change have been seen.
#[allow(non_camel_case_types)]
#[derive(Debug, Clone, Default, PartialEq)]
pub struct comment {
    pub record_uuid: String,
    pub changeset_id: i32,
    pub comment_id: i32,
}

/// A named counter.
#[allow(non_camel_case_types)]
#[derive(Debug, Clone, Default, PartialEq)]
pub struct counter {
    pub name: String,
    pub value: i32,
}

/// One run of a command.
#[allow(non_camel_case_types)]
#[derive(Debug, Clone, Default, PartialEq)]
pub struct job {
    pub record_uuid: String,
    pub job_group_name: String,
    pub instance_id: i32,
    pub job_id: String,
    pub job_pid: i32,
    pub parent_job_id: Option<String>,
    pub changeset_id: i32,
    pub patchset_id: i32,
    pub command: String,
    pub command_pid: Option<i32>,
    pub remote_host: Option<String>,
    pub status_message: String,
    pub status_updated_at: Option<i64>,
    pub updated_at: Option<i64>,
    pub started_at: Option<i64>,
    pub finished_at: Option<i64>,
    pub return_success: bool,
    pub return_code: Option<i32>,
    pub trigger_event_id: Option<String>,
}

/// A named point in time.
#[allow(non_camel_case_types)]
#[derive(Debug, Clone, Default, PartialEq)]
pub struct timestamp {
    pub name: String,
    pub value: Option<i64>,
}

} // verus!
