//! Branch stores: the trait the view model reads and writes through, and
//! the in-memory store that backs tests, demos and the shared cache.
use vstd::prelude::*;

use crate::branch::BCBranch;
use crate::branch::PrStatus;
use crate::model::lemma_names_minus_empty;
use crate::model::name_in;
use crate::model::names_minus;
use crate::model::remove_named;

verus! {

/// Access to a set of branch records: the read and write surface the view
/// model depends on. An implementation backed by a real repository promises
/// the same contract at its boundary.
pub trait BranchStore {
    /// The records the store currently holds. The default body is a
    /// placeholder so that unverified implementations outside this crate
    /// need not provide one; a verified implementation overrides it.
    open spec fn branches(&self) -> Seq<BCBranch> {
        Seq::empty()
    }

    /// Whether this store's deletions always succeed, so that it never
    /// reports a failed name. An in-memory store can promise this; one
    /// backed by a real repository cannot, and the default leaves it
    /// unpromised.
    open spec fn deletes_never_fail(&self) -> bool {
        false
    }

    /// Read the current records.
    fn list_branches(&self) -> (r: Vec<BCBranch>)
        ensures
            r@ == self.branches(),
    ;

    /// Delete the named branches from the store and report the names whose
    /// deletion failed. Exactly the confirmed names — the listed names less
    /// the reported ones — leave the record set, so that cache and backing
    /// repository stay in sync on a partial failure; names the store does
    /// not know are ignored, not failures. A store whose deletions never
    /// fail reports none, and deleting never changes that trait of the
    /// store.
    fn delete_branches(&mut self, names: &[String]) -> (failed: Vec<String>)
        ensures
            final(self).branches() == remove_named(
                old(self).branches(),
                names_minus(names.deep_view(), failed.deep_view()),
            ),
            forall|k: int|
                0 <= k < failed.deep_view().len() ==> name_in(
                    names.deep_view(),
                    #[trigger] failed.deep_view()[k],
                ),
            old(self).deletes_never_fail() ==> failed@.len() == 0,
            final(self).deletes_never_fail() == old(self).deletes_never_fail(),
    ;
}

/// Whether the slice holds a string equal to `n`.
pub(crate) fn names_contain(names: &[String], n: &String) -> (r: bool)
    ensures
        r == name_in(names.deep_view(), n@),
{
    let mut i: usize = 0;
    while i < names.len()
        invariant
            i <= names@.len(),
            forall|j: int| 0 <= j < i as int ==> names.deep_view()[j] != n@,
        decreases names@.len() - i,
    {
        if names[i] == *n {
            assert(names.deep_view()[i as int] == n@);
            return true;
        }
        i += 1;
    }
    false
}

/// In-memory store, used for tests, demos and as the verified cache that a
/// repository-backed store serializes access to.
#[derive(Debug)]
pub struct InMemoryBranchStore {
    branches: Vec<BCBranch>,
}

impl InMemoryBranchStore {
    /// A store holding exactly the given records.
    pub fn new(branches: Vec<BCBranch>) -> (r: Self)
        ensures
            r.branches() == branches@,
    {
        InMemoryBranchStore { branches }
    }
}

impl Clone for InMemoryBranchStore {
    /// Cloning keeps the records exactly.
    fn clone(&self) -> (r: Self)
        ensures
            r.branches() == self.branches(),
    {
        InMemoryBranchStore { branches: self.branches.clone() }
    }
}

impl Default for InMemoryBranchStore {
    /// Demonstration content: a fixed list of seven branches in assorted
    /// pull-request states.
    fn default() -> (r: Self)
        ensures
            r.branches().len() == 7,
            r.branches()[0].name@ == "main"@ && r.branches()[0].pr_status == PrStatus::NONE,
            r.branches()[0].pr_number is None && r.branches()[0].pr_title is None,
            r.branches()[1].name@ == "feature/add-tui"@ && r.branches()[1].pr_status
                == PrStatus::OPEN,
            r.branches()[1].pr_number == Some(42u32) && (r.branches()[1].pr_title matches Some(t)
                && t@ == "Add TUI interface with Ratatui"@),
            r.branches()[2].name@ == "old-feature-branch"@ && r.branches()[2].pr_status
                == PrStatus::MERGED,
            r.branches()[2].pr_number == Some(23u32) && (r.branches()[2].pr_title matches Some(t)
                && t@ == "Old feature implementation"@),
            r.branches()[3].name@ == "experimental/refactor"@ && r.branches()[3].pr_status
                == PrStatus::NONE,
            r.branches()[3].pr_number is None && r.branches()[3].pr_title is None,
            r.branches()[4].name@ == "bugfix/handle-errors"@ && r.branches()[4].pr_status
                == PrStatus::MERGED,
            r.branches()[4].pr_number == Some(15u32) && (r.branches()[4].pr_title matches Some(t)
                && t@ == "Fix error handling in repository"@),
            r.branches()[5].name@ == "feature/github-integration"@ && r.branches()[5].pr_status
                == PrStatus::OPEN,
            r.branches()[5].pr_number == Some(50u32) && (r.branches()[5].pr_title matches Some(t)
                && t@ == "Integrate GitHub API for PR fetching"@),
            r.branches()[6].name@ == "cleanup/remove-old-code"@ && r.branches()[6].pr_status
                == PrStatus::MERGED,
            r.branches()[6].pr_number == Some(31u32) && (r.branches()[6].pr_title matches Some(t)
                && t@ == "Remove deprecated functions and cleanup"@),
    {
        let mut branches: Vec<BCBranch> = Vec::new();
        branches.push(BCBranch::new("main", PrStatus::NONE));
        branches.push(
            BCBranch::with_pr("feature/add-tui", PrStatus::OPEN, 42, "Add TUI interface with Ratatui"),
        );
        branches.push(
            BCBranch::with_pr("old-feature-branch", PrStatus::MERGED, 23, "Old feature implementation"),
        );
        branches.push(BCBranch::new("experimental/refactor", PrStatus::NONE));
        branches.push(
            BCBranch::with_pr(
                "bugfix/handle-errors",
                PrStatus::MERGED,
                15,
                "Fix error handling in repository",
            ),
        );
        branches.push(
            BCBranch::with_pr(
                "feature/github-integration",
                PrStatus::OPEN,
                50,
                "Integrate GitHub API for PR fetching",
            ),
        );
        branches.push(
            BCBranch::with_pr(
                "cleanup/remove-old-code",
                PrStatus::MERGED,
                31,
                "Remove deprecated functions and cleanup",
            ),
        );
        InMemoryBranchStore { branches }
    }
}

impl BranchStore for InMemoryBranchStore {
    closed spec fn branches(&self) -> Seq<BCBranch> {
        self.branches@
    }

    /// Deleting from memory cannot fail.
    open spec fn deletes_never_fail(&self) -> bool {
        true
    }

    fn list_branches(&self) -> (r: Vec<BCBranch>) {
        self.branches.clone()
    }

    fn delete_branches(&mut self, names: &[String]) -> (failed: Vec<String>)
        ensures
            failed@.len() == 0,
    {
        let mut kept: Vec<BCBranch> = Vec::new();
        let mut i: usize = 0;
        while i < self.branches.len()
            invariant
                i <= self.branches@.len(),
                kept@ == remove_named(self.branches@.subrange(0, i as int), names.deep_view()),
            decreases self.branches@.len() - i,
        {
            proof {
                assert(self.branches@.subrange(0, i as int + 1).drop_last() =~= self.branches@
                    .subrange(0, i as int));
                assert(self.branches@.subrange(0, i as int + 1).last() == self.branches@[
                    i as int]);
            }
            if !names_contain(names, &self.branches[i].name) {
                kept.push(self.branches[i].clone());
            }
            i += 1;
        }
        proof {
            assert(self.branches@.subrange(0, self.branches@.len() as int) =~= self.branches@);
        }
        self.branches = kept;
        // Deletion from memory cannot fail: every listed name is confirmed.
        let failed: Vec<String> = Vec::new();
        proof {
            assert(failed.deep_view() =~= Seq::<Seq<char>>::empty());
            lemma_names_minus_empty(names.deep_view());
        }
        failed
    }
}

/// The records a store exposes immediately after load: one per listed name,
/// in listing order, each still in the transient `LOADING` status.
pub fn loading_records(names: &Vec<String>) -> (r: Vec<BCBranch>)
    ensures
        r@.len() == names@.len(),
        forall|i: int| 0 <= i < r@.len() ==> {
            &&& (#[trigger] r@[i]).name@ == names.deep_view()[i]
            &&& r@[i].pr_status == PrStatus::LOADING
            &&& r@[i].pr_number is None
            &&& r@[i].pr_title is None
        },
{
    let mut out: Vec<BCBranch> = Vec::new();
    let mut i: usize = 0;
    while i < names.len()
        invariant
            i <= names@.len(),
            out@.len() == i as int,
            forall|j: int| 0 <= j < i as int ==> {
                &&& (#[trigger] out@[j]).name@ == names.deep_view()[j]
                &&& out@[j].pr_status == PrStatus::LOADING
                &&& out@[j].pr_number is None
                &&& out@[j].pr_title is None
            },
        decreases names@.len() - i,
    {
        out.push(BCBranch::new(names[i].as_str(), PrStatus::LOADING));
        i += 1;
    }
    out
}

} // verus!
