//! Records of the review server's query reply: changes, their patchsets and
//! comments, and the trailing statistics or error row.

use crate::text::same_text;
use vstd::prelude::*;

verus! {

/// Error row of a query reply.
#[derive(Debug, Clone)]
pub struct GerritQueryError {
    pub record_type: String,
    pub message: String,
}

/// Statistics row that closes a query reply.
#[allow(non_snake_case)]
#[derive(Debug, Clone)]
pub struct GerritQueryStats {
    pub record_type: String,
    pub rowCount: u32,
    pub runTimeMilliseconds: u32,
    pub moreChanges: bool,
}

#[derive(Debug, Clone)]
pub struct GerritOwner {
    pub name: Option<String>,
    pub email: Option<String>,
    pub username: Option<String>,
}

#[derive(Debug, Clone)]
pub struct GerritComment {
    pub timestamp: i64,
    pub reviewer: GerritOwner,
    pub message: String,
}

#[allow(non_snake_case)]
#[derive(Debug, Clone)]
pub struct GerritApproval {
    pub record_type: String,
    pub description: Option<String>,
    pub value: String,
    pub grantedOn: i64,
    pub by: GerritOwner,
}

#[derive(Debug, Clone)]
pub struct GerritFileChange {
    pub file: String,
    pub record_type: String,
    pub insertions: i32,
    pub deletions: i32,
}

#[allow(non_snake_case)]
#[derive(Debug, Clone)]
pub struct GerritPatchSet {
    pub number: u32,
    pub revision: String,
    pub parents: Vec<String>,
    pub ref_name: String,
    pub uploader: GerritOwner,
    pub createdOn: i64,
    pub author: GerritOwner,
    pub kind: String,
    pub approvals: Option<Vec<GerritApproval>>,
    pub files: Option<Vec<GerritFileChange>>,
    pub sizeInsertions: Option<i32>,
    pub sizeDeletions: Option<i32>,
}

#[allow(non_snake_case)]
#[derive(Debug, Clone)]
pub struct GerritDependentPatchSet {
    pub id: String,
    pub number: i32,
    pub revision: String,
    pub ref_name: String,
    pub isCurrentPatchSet: bool,
}

#[derive(Debug, Clone)]
pub struct GerritLabel {
    pub label: String,
    pub status: String,
    pub by: Option<GerritOwner>,
}

#[derive(Debug, Clone)]
pub struct GerritSubmitRecords {
    pub status: String,
    pub labels: Vec<GerritLabel>,
}

#[allow(non_snake_case)]
#[derive(Debug, Clone)]
pub struct GerritChangeSet {
    pub project: Option<String>,
    pub branch: Option<String>,
    pub id: Option<String>,
    pub number: Option<u32>,
    pub subject: Option<String>,
    pub owner: Option<GerritOwner>,
    pub url: Option<String>,
    pub commitMessage: Option<String>,
    pub createdOn: Option<i64>,
    pub lastUpdated: Option<i64>,
    pub open: Option<bool>,
    pub status: Option<String>,
    pub comments: Option<Vec<GerritComment>>,
    pub patchSets: Option<Vec<GerritPatchSet>>,
    pub submitRecords: Option<Vec<GerritSubmitRecords>>,
    pub allReviewers: Option<Vec<GerritOwner>>,
}

/// The vote a review may carry.
#[allow(non_camel_case_types)]
#[derive(Debug, Clone, Copy, PartialEq, Eq, Structural)]
pub enum GerritVoteAction {
    success,
    failure,
    clear,
}

impl GerritVoteAction {
    /// The vote that a word names, if it names one.
    pub open spec fn spec_from_str(s: Seq<char>) -> Option<GerritVoteAction> {
        if s == "success"@ {
            Some(GerritVoteAction::success)
        } else if s == "failure"@ {
            Some(GerritVoteAction::failure)
        } else if s == "clear"@ {
            Some(GerritVoteAction::clear)
        } else {
            None
        }
    }

    /// Reads a vote from its name: `success`, `failure` or `clear`; any other
    /// word is rejected.
    pub fn from_str(s: &str) -> (r: Result<GerritVoteAction, ()>)
        ensures
            r.is_ok() == Self::spec_from_str(s@).is_some(),
            r is Ok ==> Some(r->Ok_0) == Self::spec_from_str(s@),
    {
        if same_text(s, "success") {
            Ok(GerritVoteAction::success)
        } else if same_text(s, "failure") {
            Ok(GerritVoteAction::failure)
        } else if same_text(s, "clear") {
            Ok(GerritVoteAction::clear)
        } else {
            Err(())
        }
    }
}

} // verus!
