//! Branch records: a local branch name together with the pull-request
//! enrichment attached to it.
use vstd::prelude::*;

verus! {

/// Pull-request status attached to a local branch.
#[allow(non_camel_case_types)]
#[derive(Clone, Copy, Debug, PartialEq, Eq, Structural)]
pub enum PrStatus {
    /// No pull request is associated with the branch.
    NONE,
    /// An open pull request exists for the branch.
    OPEN,
    /// The branch's pull request was merged.
    MERGED,
    /// The branch's pull request was closed without merging.
    CLOSED,
    /// Placeholder while enrichment for the branch is still running.
    LOADING,
}

impl PrStatus {
    /// A resolved status is any status other than the transient `LOADING`.
    pub open spec fn is_resolved(self) -> bool {
        self != PrStatus::LOADING
    }

    /// A status that comes with a pull request: number and title are present
    /// exactly for these.
    pub open spec fn has_pr(self) -> bool {
        self == PrStatus::OPEN || self == PrStatus::MERGED || self == PrStatus::CLOSED
    }
}

/// One branch's record: its name plus pull-request status, number and title.
#[derive(Debug, PartialEq, Eq)]
pub struct BCBranch {
    pub name: String,
    pub pr_status: PrStatus,
    pub pr_number: Option<u32>,
    pub pr_title: Option<String>,
}

impl BCBranch {
    /// Number and title are present if and only if the status says a pull
    /// request was found.
    pub open spec fn wf(self) -> bool {
        &&& self.pr_status.has_pr() <==> self.pr_number is Some
        &&& self.pr_status.has_pr() <==> self.pr_title is Some
    }

    /// A record without pull-request data (`NONE` or `LOADING`).
    pub fn new(name: &str, pr_status: PrStatus) -> (r: BCBranch)
        ensures
            r.name@ == name@,
            r.pr_status == pr_status,
            r.pr_number is None,
            r.pr_title is None,
            !pr_status.has_pr() ==> r.wf(),
    {
        BCBranch { name: name.to_owned(), pr_status, pr_number: None, pr_title: None }
    }

    /// A record for a branch whose pull request was found.
    pub fn with_pr(name: &str, pr_status: PrStatus, pr_number: u32, pr_title: &str) -> (r:
        BCBranch)
        ensures
            r.name@ == name@,
            r.pr_status == pr_status,
            r.pr_number == Some(pr_number),
            r.pr_title matches Some(t) && t@ == pr_title@,
            pr_status.has_pr() ==> r.wf(),
    {
        BCBranch {
            name: name.to_owned(),
            pr_status,
            pr_number: Some(pr_number),
            pr_title: Some(pr_title.to_owned()),
        }
    }
}

impl Clone for BCBranch {
    /// Cloning a record preserves it exactly, so that cloning a vector of
    /// records preserves the whole view.
    fn clone(&self) -> (r: Self)
        ensures
            r == *self,
    {
        BCBranch {
            name: self.name.clone(),
            pr_status: self.pr_status,
            pr_number: self.pr_number,
            pr_title: match &self.pr_title {
                Some(t) => Some(t.clone()),
                None => None,
            },
        }
    }
}

} // verus!
