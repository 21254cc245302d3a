//! Global properties of the view-state transitions, proved once and for
//! all against the transition relations the executable functions ensure.
use vstd::prelude::*;

use crate::branch::BCBranch;
use crate::model::distinct_names;
use crate::model::first_name_match;
use crate::model::has_branch;
use crate::model::is_first_name_match;
use crate::model::is_merged;
use crate::model::lemma_first_match_exists;
use crate::model::lemma_first_name_exists;
use crate::model::lemma_first_name_match;
use crate::model::lemma_merged_names_empty;
use crate::model::lemma_names_minus_empty;
use crate::model::lemma_remove_named_membership;
use crate::model::merged_names;
use crate::model::name_in;
use crate::model::names_minus;
use crate::model::remove_named;
use crate::model::toggle_name;
use crate::view_model::delete_rel;
use crate::view_model::toggle_rel;
use crate::view_model::update_rel;
use crate::view_model::ViewState;

verus! {

/// Toggling a name twice restores the marked set: helper at the level of
/// the marked-name sequence.
proof fn lemma_toggle_name_involutive(marked: Seq<Seq<char>>, n: Seq<char>)
    requires
        distinct_names(marked),
    ensures
        toggle_name(toggle_name(marked, n), n).to_set() == marked.to_set(),
{
    if name_in(marked, n) {
        lemma_first_name_exists(marked, n);
        let q = first_name_match(marked, n);
        let mid = marked.remove(q);
        assert forall|k: int| 0 <= k < mid.len() implies mid[k] != n by {
            if k < q {
                assert(mid[k] == marked[k]);
            } else {
                assert(mid[k] == marked[k + 1]);
            }
        }
        assert(!name_in(mid, n));
        assert(toggle_name(marked, n) == mid);
        let out = mid.push(n);
        assert(toggle_name(mid, n) == out);
        assert(out.to_set() =~= marked.to_set()) by {
            assert forall|x: Seq<char>| out.contains(x) implies marked.contains(x) by {
                let k = choose|k: int| 0 <= k < out.len() && out[k] == x;
                if k == out.len() - 1 {
                    assert(marked[q] == n);
                } else if k < q {
                    assert(marked[k] == x);
                } else {
                    assert(marked[k + 1] == x);
                }
            }
            assert forall|x: Seq<char>| marked.contains(x) implies out.contains(x) by {
                let k = choose|k: int| 0 <= k < marked.len() && marked[k] == x;
                if x == n {
                    assert(out[out.len() - 1] == x);
                } else if k < q {
                    assert(out[k] == x);
                } else {
                    assert(k > q);
                    assert(out[k - 1] == mid[k - 1]);
                    assert(mid[k - 1] == marked[k]);
                }
            }
        }
    } else {
        let mid = marked.push(n);
        assert(toggle_name(marked, n) == mid);
        assert(mid[mid.len() - 1] == n);
        assert(name_in(mid, n));
        assert(is_first_name_match(mid, n, marked.len() as int)) by {
            assert(forall|j: int| 0 <= j < marked.len() ==> mid[j] == marked[j]);
        }
        lemma_first_name_match(mid, n, marked.len() as int);
        let out = mid.remove(marked.len() as int);
        assert(toggle_name(mid, n) == out);
        assert(out =~= marked);
    }
}

/// Streamed updates replace records in place, never insert or remove: one
/// application of the update relation keeps the number of branches, so any
/// sequence of `update_branch` calls leaves it invariant.
pub proof fn lemma_update_preserves_branch_count(pre: ViewState, post: ViewState, rec: BCBranch)
    requires
        update_rel(pre, post, rec),
    ensures
        post.branches@.len() == pre.branches@.len(),
{
    if has_branch(pre.branches@, rec.name@) {
        lemma_first_match_exists(pre.branches@, rec.name@);
    }
}

/// Toggling the mark under the cursor twice restores the prior marked set
/// (as a set of names; the order of manual marks may differ), and leaves
/// the branch list and the cursor where they were.
pub proof fn lemma_toggle_twice_restores_marked(pre: ViewState, mid: ViewState, post: ViewState)
    requires
        toggle_rel(pre, mid),
        toggle_rel(mid, post),
        distinct_names(pre.selected_branches.deep_view()),
    ensures
        post.selected_branches.deep_view().to_set() == pre.selected_branches.deep_view().to_set(),
        post.branches == pre.branches,
        post.selected_index == pre.selected_index,
{
    if pre.selected_index as int >= pre.branches@.len() {
    } else {
        let n = pre.branches@[pre.selected_index as int].name@;
        lemma_toggle_name_involutive(pre.selected_branches.deep_view(), n);
    }
}

/// With no reported failures — as a store whose deletions never fail
/// guarantees — the delete-then-reload cycle drops exactly the marked
/// names from the store and reselects among what remains.
pub proof fn lemma_delete_rel_all_confirmed(
    pre_store: Seq<BCBranch>,
    pre: ViewState,
    post_store: Seq<BCBranch>,
    post: ViewState,
    failed: Seq<Seq<char>>,
)
    requires
        delete_rel(pre_store, pre, post_store, post, failed),
        failed.len() == 0,
        pre.selected_branches@.len() > 0,
    ensures
        post_store == remove_named(pre_store, pre.selected_branches.deep_view()),
        post.branches@ == post_store,
        post.selected_branches.deep_view() == merged_names(post_store),
        post.selected_index == 0,
{
    assert(failed =~= Seq::<Seq<char>>::empty());
    lemma_names_minus_empty(pre.selected_branches.deep_view());
}

/// With every `MERGED` branch marked — the state the default selection
/// rule produces — and every deletion confirmed, the delete-then-reload
/// cycle is idempotent: a second run with nothing newly marked changes
/// neither the store nor the state and reports no failure, because the
/// reload leaves nothing marked.
pub proof fn lemma_delete_twice_noop(
    store1: Seq<BCBranch>,
    s1: ViewState,
    store2: Seq<BCBranch>,
    s2: ViewState,
    store3: Seq<BCBranch>,
    s3: ViewState,
    failed1: Seq<Seq<char>>,
    failed2: Seq<Seq<char>>,
)
    requires
        delete_rel(store1, s1, store2, s2, failed1),
        delete_rel(store2, s2, store3, s3, failed2),
        failed1.len() == 0,
        forall|i: int|
            0 <= i < store1.len() && is_merged(#[trigger] store1[i]) ==> name_in(
                s1.selected_branches.deep_view(),
                store1[i].name@,
            ),
    ensures
        store3 == store2,
        s3 == s2,
        failed2.len() == 0,
{
    if s1.selected_branches@.len() == 0 {
    } else {
        let marked = s1.selected_branches.deep_view();
        assert(failed1 =~= Seq::<Seq<char>>::empty());
        lemma_names_minus_empty(marked);
        assert(names_minus(marked, failed1) == marked);
        let remaining = remove_named(store1, marked);
        lemma_remove_named_membership(store1, marked);
        assert forall|i: int| 0 <= i < remaining.len() implies !is_merged(remaining[i]) by {
            if is_merged(remaining[i]) {
                assert(store1.contains(remaining[i]));
                let j = choose|j: int| 0 <= j < store1.len() && store1[j] == remaining[i];
                assert(name_in(marked, store1[j].name@));
                assert(!name_in(marked, remaining[i].name@));
            }
        }
        lemma_merged_names_empty(remaining);
        assert(s2.selected_branches.deep_view().len() == 0);
        assert(s2.selected_branches@.len() == 0);
    }
}

/// The default selection rule — mark exactly the names of the `MERGED`
/// branches — is idempotent: recomputing it from the same branch list
/// yields the same marked set it already produced.
pub proof fn lemma_default_selection_idempotent(s: ViewState, t: ViewState)
    requires
        s.selected_branches.deep_view() == merged_names(s.branches@),
        t.branches@ == s.branches@,
        t.selected_branches.deep_view() == merged_names(t.branches@),
    ensures
        t.selected_branches.deep_view() == s.selected_branches.deep_view(),
{
}

} // verus!
