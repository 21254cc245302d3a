//! The view state the presentation layer renders from, and the pure
//! transition functions over it: navigation, marking, streamed updates and
//! the delete-then-reload cycle.
use vstd::prelude::*;

use crate::branch::BCBranch;
use crate::branch::PrStatus;
use crate::model::distinct_names;
use crate::model::first_match;
use crate::model::has_branch;
use crate::model::is_first_match;
use crate::model::is_first_name_match;
use crate::model::lemma_first_match;
use crate::model::lemma_first_name_match;
use crate::model::lemma_merged_names_distinct;
use crate::model::lemma_merged_names_in_branches;
use crate::model::lemma_remove_named_unique;
use crate::model::merged_names;
use crate::model::name_in;
use crate::model::names_minus;
use crate::model::remove_named;
use crate::model::toggle_name;
use crate::model::unique_names;
use crate::store::BranchStore;

verus! {

/// Snapshot the presentation layer renders from: the branch list in display
/// order, the cursor, and the branch names marked for deletion.
#[derive(Debug, PartialEq, Eq)]
pub struct ViewState {
    pub branches: Vec<BCBranch>,
    pub selected_index: usize,
    pub selected_branches: Vec<String>,
}

impl ViewState {
    /// The cursor stays within the list (position 0 on an empty list).
    pub open spec fn cursor_ok(self) -> bool {
        if self.branches@.len() == 0 {
            self.selected_index == 0
        } else {
            (self.selected_index as int) < self.branches@.len()
        }
    }

    /// Every marked name belongs to a listed branch and no name is marked
    /// twice.
    pub open spec fn marked_ok(self) -> bool {
        &&& forall|k: int|
            0 <= k < self.selected_branches.deep_view().len() ==> has_branch(
                self.branches@,
                #[trigger] self.selected_branches.deep_view()[k],
            )
        &&& distinct_names(self.selected_branches.deep_view())
    }

    /// The state invariants every transition re-establishes.
    pub open spec fn wf(self) -> bool {
        self.cursor_ok() && self.marked_ok()
    }

    /// Initial state: cursor at the top, all `MERGED` branches marked.
    pub fn new(branches: Vec<BCBranch>) -> (r: ViewState)
        ensures
            r.branches@ == branches@,
            r.selected_index == 0,
            r.selected_branches.deep_view() == merged_names(branches@),
            unique_names(branches@) ==> r.wf(),
    {
        let selected_branches = merged_branch_names(&branches);
        proof {
            lemma_merged_names_in_branches(branches@);
            if unique_names(branches@) {
                lemma_merged_names_distinct(branches@);
            }
        }
        ViewState { branches, selected_index: 0, selected_branches }
    }
}

impl Clone for ViewState {
    /// Cloning keeps the whole snapshot.
    fn clone(&self) -> (r: Self)
        ensures
            r.branches@ == self.branches@,
            r.selected_index == self.selected_index,
            r.selected_branches@ == self.selected_branches@,
    {
        ViewState {
            branches: self.branches.clone(),
            selected_index: self.selected_index,
            selected_branches: self.selected_branches.clone(),
        }
    }
}

/// The names of the `MERGED` branches, in display order: the default
/// deletion pre-selection.
pub fn merged_branch_names(branches: &Vec<BCBranch>) -> (r: Vec<String>)
    ensures
        r.deep_view() == merged_names(branches@),
{
    let mut out: Vec<String> = Vec::new();
    let mut i: usize = 0;
    while i < branches.len()
        invariant
            i <= branches@.len(),
            out.deep_view() == merged_names(branches@.subrange(0, i as int)),
        decreases branches@.len() - i,
    {
        proof {
            assert(branches@.subrange(0, i as int + 1).drop_last() =~= branches@.subrange(
                0,
                i as int,
            ));
            assert(branches@.subrange(0, i as int + 1).last() == branches@[i as int]);
        }
        if branches[i].pr_status == PrStatus::MERGED {
            out.push(branches[i].name.clone());
            proof {
                assert(out.deep_view() =~= merged_names(branches@.subrange(0, i as int + 1)));
            }
        }
        i += 1;
    }
    proof {
        assert(branches@.subrange(0, branches@.len() as int) =~= branches@);
    }
    out
}

/// The first position in `names` holding a string equal to `n`.
fn position_of_name(names: &Vec<String>, n: &String) -> (r: Option<usize>)
    ensures
        match r {
            Some(p) => is_first_name_match(names.deep_view(), n@, p as int),
            None => !name_in(names.deep_view(), n@),
        },
{
    let mut i: usize = 0;
    while i < names.len()
        invariant
            i <= names@.len(),
            forall|j: int| 0 <= j < i as int ==> names.deep_view()[j] != n@,
        decreases names@.len() - i,
    {
        if names[i] == *n {
            assert(names.deep_view()[i as int] == n@);
            return Some(i);
        }
        i += 1;
    }
    None
}

/// The first position in `branches` whose record is called `n`.
fn position_of_branch(branches: &Vec<BCBranch>, n: &String) -> (r: Option<usize>)
    ensures
        match r {
            Some(p) => is_first_match(branches@, n@, p as int),
            None => !has_branch(branches@, n@),
        },
{
    let mut i: usize = 0;
    while i < branches.len()
        invariant
            i <= branches@.len(),
            forall|j: int| 0 <= j < i as int ==> branches@[j].name@ != n@,
        decreases branches@.len() - i,
    {
        if branches[i].name == *n {
            return Some(i);
        }
        i += 1;
    }
    None
}

/// How moving the cursor up relates the state before and after: one step
/// toward the top, clamped at position 0; nothing else changes.
pub open spec fn move_up_rel(pre: ViewState, post: ViewState) -> bool {
    &&& post.branches == pre.branches
    &&& post.selected_branches == pre.selected_branches
    &&& post.selected_index as int == if pre.selected_index > 0 {
        pre.selected_index - 1
    } else {
        0
    }
}

/// How moving the cursor down relates the state before and after: one step
/// toward the bottom, clamped at the last entry; nothing else changes.
pub open spec fn move_down_rel(pre: ViewState, post: ViewState) -> bool {
    &&& post.branches == pre.branches
    &&& post.selected_branches == pre.selected_branches
    &&& post.selected_index as int == if pre.selected_index + 1 < pre.branches@.len() {
        pre.selected_index + 1
    } else {
        pre.selected_index as int
    }
}

/// How toggling the mark under the cursor relates the state before and
/// after: flip membership of the branch under the cursor in the marked set;
/// a no-op when the cursor is outside the list.
pub open spec fn toggle_rel(pre: ViewState, post: ViewState) -> bool {
    if pre.selected_index as int >= pre.branches@.len() {
        post == pre
    } else {
        &&& post.branches == pre.branches
        &&& post.selected_index == pre.selected_index
        &&& post.selected_branches.deep_view() == toggle_name(
            pre.selected_branches.deep_view(),
            pre.branches@[pre.selected_index as int].name@,
        )
    }
}

/// How folding one streamed record into the state relates before and after:
/// the first record of the same name is replaced in place; a branch leaving
/// `LOADING` as `MERGED` is additionally marked; an unknown name leaves the
/// state untouched.
pub open spec fn update_rel(pre: ViewState, post: ViewState, rec: BCBranch) -> bool {
    if !has_branch(pre.branches@, rec.name@) {
        post == pre
    } else {
        let p = first_match(pre.branches@, rec.name@);
        &&& post.branches@ == pre.branches@.update(p, rec)
        &&& post.selected_index == pre.selected_index
        &&& post.selected_branches.deep_view() == if pre.branches@[p].pr_status
            == PrStatus::LOADING && rec.pr_status == PrStatus::MERGED && !name_in(
            pre.selected_branches.deep_view(),
            rec.name@,
        ) {
            pre.selected_branches.deep_view().push(rec.name@)
        } else {
            pre.selected_branches.deep_view()
        }
    }
}

/// How the delete-then-reload cycle relates store and state before and
/// after: the marked branches whose deletion was confirmed — the marked
/// names less the reported failures — leave the store, and the state is
/// rebuilt from the store's remaining records with the default selection
/// and the cursor reset; with nothing marked, nothing happens at all.
pub open spec fn delete_rel(
    pre_store: Seq<BCBranch>,
    pre: ViewState,
    post_store: Seq<BCBranch>,
    post: ViewState,
    failed: Seq<Seq<char>>,
) -> bool {
    if pre.selected_branches@.len() == 0 {
        post == pre && post_store == pre_store && failed.len() == 0
    } else {
        let confirmed = names_minus(pre.selected_branches.deep_view(), failed);
        let remaining = remove_named(pre_store, confirmed);
        &&& post_store == remaining
        &&& post.branches@ == remaining
        &&& post.selected_branches.deep_view() == merged_names(remaining)
        &&& post.selected_index == 0
    }
}

/// Business logic over `ViewState`, bridging to the store for loading and
/// deleting; every transition is total and re-establishes the invariants.
#[derive(Debug)]
pub struct BranchViewModel<T: BranchStore> {
    store: T,
}

impl<T: BranchStore> BranchViewModel<T> {
    /// The records the underlying store currently holds.
    pub closed spec fn store_branches(&self) -> Seq<BCBranch> {
        self.store.branches()
    }

    /// Whether the underlying store's deletions always succeed.
    pub closed spec fn store_deletes_never_fail(&self) -> bool {
        self.store.deletes_never_fail()
    }

    /// A view model over the given store.
    pub fn new(store: T) -> (r: Self)
        ensures
            r.store_branches() == store.branches(),
            r.store_deletes_never_fail() == store.deletes_never_fail(),
    {
        BranchViewModel { store }
    }

    /// Load the store's records into an initial state: cursor at the top,
    /// all `MERGED` branches marked.
    pub fn load_initial_state(&self) -> (r: ViewState)
        ensures
            r.branches@ == self.store_branches(),
            r.selected_index == 0,
            r.selected_branches.deep_view() == merged_names(self.store_branches()),
            unique_names(self.store_branches()) ==> r.wf(),
    {
        ViewState::new(self.store.list_branches())
    }

    /// Move the cursor one step toward the top.
    pub fn move_up(&self, state: &mut ViewState)
        ensures
            move_up_rel(*old(state), *final(state)),
            old(state).wf() ==> final(state).wf(),
    {
        if state.selected_index > 0 {
            state.selected_index = state.selected_index - 1;
        }
    }

    /// Move the cursor one step toward the bottom.
    pub fn move_down(&self, state: &mut ViewState)
        ensures
            move_down_rel(*old(state), *final(state)),
            old(state).wf() ==> final(state).wf(),
    {
        let max_index: usize = if state.branches.len() > 0 {
            state.branches.len() - 1
        } else {
            0
        };
        if state.selected_index < max_index {
            state.selected_index = state.selected_index + 1;
        }
    }

    /// Flip whether the branch under the cursor is marked for deletion.
    pub fn toggle_selection(&self, state: &mut ViewState)
        ensures
            toggle_rel(*old(state), *final(state)),
            old(state).wf() ==> final(state).wf(),
    {
        if state.selected_index >= state.branches.len() {
            return ;
        }
        let ghost pre = *state;
        let ghost n = state.branches@[state.selected_index as int].name@;
        let found = position_of_name(&state.selected_branches, &state.branches[
            state.selected_index].name);
        match found {
            Some(pos) => {
                proof {
                    lemma_first_name_match(pre.selected_branches.deep_view(), n, pos as int);
                }
                state.selected_branches.remove(pos);
                proof {
                    assert(state.selected_branches.deep_view() =~= pre.selected_branches
                        .deep_view().remove(pos as int));
                }
            },
            None => {
                let name = state.branches[state.selected_index].name.clone();
                state.selected_branches.push(name);
                proof {
                    assert(state.selected_branches.deep_view() =~= pre.selected_branches
                        .deep_view().push(n));
                }
            },
        }
        proof {
            if pre.wf() {
                assert(final(state).marked_ok()) by {
                    let pd = pre.selected_branches.deep_view();
                    let fd = state.selected_branches.deep_view();
                    match found {
                        Some(pos) => {
                            assert forall|k: int| 0 <= k < fd.len() implies has_branch(
                                state.branches@,
                                #[trigger] fd[k],
                            ) && distinct_names(fd) by {
                                assert(forall|k2: int|
                                    0 <= k2 < fd.len() ==> #[trigger] fd[k2] == (if k2 < pos as int {
                                        pd[k2]
                                    } else {
                                        pd[k2 + 1]
                                    }));
                            }
                        },
                        None => {
                            assert(has_branch(state.branches@, n));
                        },
                    }
                }
            }
        }
    }

    /// Delete the marked branches through the store, then rebuild the state
    /// from the store's remaining records: default selection, cursor reset.
    /// The names whose deletion the store reported as failed are returned,
    /// so that the caller can surface the partial failure; the rebuilt
    /// state reflects only the confirmed deletions. With nothing marked
    /// this makes no store call and changes nothing.
    pub fn delete_selected_branches(&mut self, state: &mut ViewState) -> (failed: Vec<String>)
        ensures
            delete_rel(
                old(self).store_branches(),
                *old(state),
                final(self).store_branches(),
                *final(state),
                failed.deep_view(),
            ),
            forall|k: int|
                0 <= k < failed.deep_view().len() ==> name_in(
                    old(state).selected_branches.deep_view(),
                    #[trigger] failed.deep_view()[k],
                ),
            old(self).store_deletes_never_fail() ==> failed@.len() == 0,
            final(self).store_deletes_never_fail() == old(self).store_deletes_never_fail(),
            unique_names(old(self).store_branches()) && old(state).wf() ==> final(state).wf(),
    {
        if state.selected_branches.len() == 0 {
            return Vec::new();
        }
        let ghost pre_store = self.store_branches();
        let ghost marked = state.selected_branches.deep_view();
        let names_slice = state.selected_branches.as_slice();
        proof {
            assert(names_slice.deep_view() =~= marked);
        }
        let failed = self.store.delete_branches(names_slice);
        let new_branches = self.store.list_branches();
        let new_selected = merged_branch_names(&new_branches);
        proof {
            lemma_merged_names_in_branches(new_branches@);
            if unique_names(pre_store) {
                lemma_remove_named_unique(pre_store, names_minus(marked, failed.deep_view()));
                lemma_merged_names_distinct(new_branches@);
            }
        }
        state.branches = new_branches;
        state.selected_branches = new_selected;
        state.selected_index = 0;
        failed
    }

    /// Fold one streamed enrichment result into the state: replace the
    /// record of the same name in place; mark a branch that leaves
    /// `LOADING` as `MERGED`; silently drop an unknown name.
    pub fn update_branch(&self, state: &mut ViewState, updated_branch: BCBranch)
        ensures
            update_rel(*old(state), *final(state), updated_branch),
            final(state).branches@.len() == old(state).branches@.len(),
            !has_branch(old(state).branches@, updated_branch.name@) ==> *final(state) == *old(
                state,
            ),
            old(state).wf() ==> final(state).wf(),
    {
        let ghost pre = *state;
        let found = position_of_branch(&state.branches, &updated_branch.name);
        match found {
            None => {},
            Some(p) => {
                proof {
                    lemma_first_match(pre.branches@, updated_branch.name@, p as int);
                }
                let was_loading = state.branches[p].pr_status == PrStatus::LOADING;
                let is_now_merged = updated_branch.pr_status == PrStatus::MERGED;
                if was_loading && is_now_merged {
                    let already = position_of_name(&state.selected_branches, &updated_branch.name);
                    if already.is_none() {
                        state.selected_branches.push(updated_branch.name.clone());
                        proof {
                            assert(state.selected_branches.deep_view() =~= pre.selected_branches
                                .deep_view().push(updated_branch.name@));
                        }
                    }
                }
                state.branches.set(p, updated_branch);
                proof {
                    if pre.wf() {
                        assert(final(state).marked_ok()) by {
                            let fd = state.selected_branches.deep_view();
                            assert forall|k: int| 0 <= k < fd.len() implies has_branch(
                                state.branches@,
                                #[trigger] fd[k],
                            ) by {
                                if k < pre.selected_branches.deep_view().len() {
                                    // The witness index still carries the same
                                    // name: either it is p, whose new record
                                    // keeps the name, or it was not touched.
                                    let i = choose|i: int|
                                        0 <= i < pre.branches@.len() && pre.branches@[i].name@
                                            == fd[k];
                                    assert(state.branches@[i].name@ == fd[k]);
                                } else {
                                    assert(state.branches@[p as int].name@ == updated_branch
                                        .name@);
                                }
                            }
                        }
                    }
                }
            },
        }
    }
}

} // verus!
