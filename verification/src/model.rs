//! Specification-level model: branch lists as sequences of records, marked
//! sets as sequences of character-sequence names, and the pure operations
//! that the executable transitions are specified against.
use vstd::prelude::*;

use crate::branch::BCBranch;
use crate::branch::PrStatus;

verus! {

/// Whether `n` occurs in `names`.
pub open spec fn name_in(names: Seq<Seq<char>>, n: Seq<char>) -> bool {
    exists|i: int| 0 <= i < names.len() && names[i] == n
}

/// No name occurs twice in `names`.
pub open spec fn distinct_names(names: Seq<Seq<char>>) -> bool {
    forall|i: int, j: int| 0 <= i < j < names.len() ==> names[i] != names[j]
}

/// All branch names in `s` are distinct.
pub open spec fn unique_names(s: Seq<BCBranch>) -> bool {
    forall|i: int, j: int| 0 <= i < j < s.len() ==> s[i].name@ != s[j].name@
}

/// Whether some branch in `s` is called `name`.
pub open spec fn has_branch(s: Seq<BCBranch>, name: Seq<char>) -> bool {
    exists|i: int| 0 <= i < s.len() && s[i].name@ == name
}

/// `p` is the first position in `s` whose branch is called `name`.
pub open spec fn is_first_match(s: Seq<BCBranch>, name: Seq<char>, p: int) -> bool {
    &&& 0 <= p < s.len()
    &&& s[p].name@ == name
    &&& forall|j: int| 0 <= j < p ==> s[j].name@ != name
}

/// The first position in `s` whose branch is called `name`. Meaningful only
/// when `has_branch(s, name)` holds; `is_first_match` then pins it uniquely.
pub open spec fn first_match(s: Seq<BCBranch>, name: Seq<char>) -> int {
    choose|p: int| is_first_match(s, name, p)
}

/// The witness handed in is the position `first_match` denotes.
pub proof fn lemma_first_match(s: Seq<BCBranch>, name: Seq<char>, p: int)
    requires
        is_first_match(s, name, p),
    ensures
        first_match(s, name) == p,
{
    assert(exists|q: int| is_first_match(s, name, q));
    let q = first_match(s, name);
    assert(is_first_match(s, name, q));
    if q < p {
        assert(s[q].name@ != name);
    }
    if p < q {
        assert(s[p].name@ != name);
    }
}

/// A branch name that occurs at all has a first occurrence.
pub proof fn lemma_first_match_exists(s: Seq<BCBranch>, name: Seq<char>)
    requires
        has_branch(s, name),
    ensures
        is_first_match(s, name, first_match(s, name)),
    decreases s.len(),
{
    if s[0].name@ == name {
        assert(is_first_match(s, name, 0));
    } else {
        let rest = s.drop_first();
        let i = choose|i: int| 0 <= i < s.len() && s[i].name@ == name;
        assert(rest[i - 1].name@ == name);
        assert(has_branch(rest, name));
        lemma_first_match_exists(rest, name);
        let p = first_match(rest, name);
        assert(s[p + 1] == rest[p]);
        assert forall|j: int| 0 <= j < p + 1 implies s[j].name@ != name by {
            if j > 0 {
                assert(rest[j - 1].name@ != name);
            }
        }
        assert(is_first_match(s, name, p + 1));
    }
    let w = choose|w: int| is_first_match(s, name, w);
    lemma_first_match(s, name, w);
}

/// `p` is the first position of `n` in the name sequence `names`.
pub open spec fn is_first_name_match(names: Seq<Seq<char>>, n: Seq<char>, p: int) -> bool {
    &&& 0 <= p < names.len()
    &&& names[p] == n
    &&& forall|j: int| 0 <= j < p ==> names[j] != n
}

/// The first position of `n` in `names`. Meaningful only when
/// `name_in(names, n)` holds; `is_first_name_match` then pins it uniquely.
pub open spec fn first_name_match(names: Seq<Seq<char>>, n: Seq<char>) -> int {
    choose|p: int| is_first_name_match(names, n, p)
}

/// The witness handed in is the position `first_name_match` denotes.
pub proof fn lemma_first_name_match(names: Seq<Seq<char>>, n: Seq<char>, p: int)
    requires
        is_first_name_match(names, n, p),
    ensures
        first_name_match(names, n) == p,
{
    assert(exists|q: int| is_first_name_match(names, n, q));
    let q = first_name_match(names, n);
    assert(is_first_name_match(names, n, q));
    if q < p {
        assert(names[q] != n);
    }
    if p < q {
        assert(names[p] != n);
    }
}

/// A name that occurs at all has a first occurrence.
pub proof fn lemma_first_name_exists(names: Seq<Seq<char>>, n: Seq<char>)
    requires
        name_in(names, n),
    ensures
        is_first_name_match(names, n, first_name_match(names, n)),
    decreases names.len(),
{
    if names[0] == n {
        assert(is_first_name_match(names, n, 0));
    } else {
        let rest = names.drop_first();
        let i = choose|i: int| 0 <= i < names.len() && names[i] == n;
        assert(rest[i - 1] == n);
        assert(name_in(rest, n));
        lemma_first_name_exists(rest, n);
        let p = first_name_match(rest, n);
        assert(names[p + 1] == rest[p]);
        assert forall|j: int| 0 <= j < p + 1 implies names[j] != n by {
            if j > 0 {
                assert(rest[j - 1] != n);
            }
        }
        assert(is_first_name_match(names, n, p + 1));
    }
    let w = choose|w: int| is_first_name_match(names, n, w);
    lemma_first_name_match(names, n, w);
}

/// Whether a record's pull request was merged.
pub open spec fn is_merged(b: BCBranch) -> bool {
    b.pr_status == PrStatus::MERGED
}

/// The names of the `MERGED` branches of `s`, in order: the default
/// selection rule.
pub open spec fn merged_names(s: Seq<BCBranch>) -> Seq<Seq<char>>
    decreases s.len(),
{
    if s.len() == 0 {
        Seq::empty()
    } else if is_merged(s.last()) {
        merged_names(s.drop_last()).push(s.last().name@)
    } else {
        merged_names(s.drop_last())
    }
}

/// `s` without the branches whose names occur in `names`, order kept.
pub open spec fn remove_named(s: Seq<BCBranch>, names: Seq<Seq<char>>) -> Seq<BCBranch>
    decreases s.len(),
{
    if s.len() == 0 {
        Seq::empty()
    } else if name_in(names, s.last().name@) {
        remove_named(s.drop_last(), names)
    } else {
        remove_named(s.drop_last(), names).push(s.last())
    }
}

/// The names of `names` that do not occur in `excluded`, order kept.
pub open spec fn names_minus(names: Seq<Seq<char>>, excluded: Seq<Seq<char>>) -> Seq<Seq<char>>
    decreases names.len(),
{
    if names.len() == 0 {
        Seq::empty()
    } else if name_in(excluded, names.last()) {
        names_minus(names.drop_last(), excluded)
    } else {
        names_minus(names.drop_last(), excluded).push(names.last())
    }
}

/// With nothing excluded, the difference is the whole sequence.
pub proof fn lemma_names_minus_empty(names: Seq<Seq<char>>)
    ensures
        names_minus(names, Seq::empty()) == names,
    decreases names.len(),
{
    if names.len() > 0 {
        lemma_names_minus_empty(names.drop_last());
        assert(names_minus(names, Seq::empty()) =~= names);
    }
}

/// Flip membership of `n` in `marked`: drop its first occurrence, or append
/// it at the end.
pub open spec fn toggle_name(marked: Seq<Seq<char>>, n: Seq<char>) -> Seq<Seq<char>> {
    if name_in(marked, n) {
        marked.remove(first_name_match(marked, n))
    } else {
        marked.push(n)
    }
}

/// A name is selected by the default rule exactly when a `MERGED` branch
/// carries it.
pub proof fn lemma_merged_names_membership(s: Seq<BCBranch>, n: Seq<char>)
    ensures
        name_in(merged_names(s), n) <==> exists|i: int|
            0 <= i < s.len() && is_merged(s[i]) && s[i].name@ == n,
    decreases s.len(),
{
    if s.len() > 0 {
        lemma_merged_names_membership(s.drop_last(), n);
        let rest = merged_names(s.drop_last());
        if name_in(merged_names(s), n) {
            if is_merged(s.last()) && s.last().name@ == n {
                assert(is_merged(s[s.len() - 1]) && s[s.len() - 1].name@ == n);
            } else {
                let k = choose|k: int| 0 <= k < merged_names(s).len() && merged_names(s)[k] == n;
                if is_merged(s.last()) {
                    assert(merged_names(s) == rest.push(s.last().name@));
                    assert(rest[k] == n);
                } else {
                    assert(rest[k] == n);
                }
                assert(name_in(rest, n));
                let i = choose|i: int|
                    0 <= i < s.drop_last().len() && is_merged(s.drop_last()[i])
                        && s.drop_last()[i].name@ == n;
                assert(s.drop_last()[i] == s[i]);
            }
        }
        if exists|i: int| 0 <= i < s.len() && is_merged(s[i]) && s[i].name@ == n {
            let i = choose|i: int| 0 <= i < s.len() && is_merged(s[i]) && s[i].name@ == n;
            if i == s.len() - 1 {
                assert(is_merged(s.last()) && s.last().name@ == n);
                assert(merged_names(s)[merged_names(s).len() - 1] == n);
            } else {
                assert(s.drop_last()[i] == s[i]);
                assert(name_in(rest, n));
                let k = choose|k: int| 0 <= k < rest.len() && rest[k] == n;
                if is_merged(s.last()) {
                    assert(merged_names(s)[k] == n);
                } else {
                    assert(merged_names(s)[k] == n);
                }
            }
        }
    }
}

/// Every name the default rule selects belongs to some branch of `s`.
pub proof fn lemma_merged_names_in_branches(s: Seq<BCBranch>)
    ensures
        forall|k: int| 0 <= k < merged_names(s).len() ==> has_branch(s, merged_names(s)[k]),
{
    assert forall|k: int| 0 <= k < merged_names(s).len() implies has_branch(
        s,
        merged_names(s)[k],
    ) by {
        let n = merged_names(s)[k];
        assert(name_in(merged_names(s), n));
        lemma_merged_names_membership(s, n);
    }
}

/// With distinct branch names the default rule never selects a name twice.
pub proof fn lemma_merged_names_distinct(s: Seq<BCBranch>)
    requires
        unique_names(s),
    ensures
        distinct_names(merged_names(s)),
    decreases s.len(),
{
    if s.len() > 0 {
        assert(forall|i: int, j: int|
            0 <= i < j < s.drop_last().len() ==> s.drop_last()[i].name@ != s.drop_last()[j].name@);
        lemma_merged_names_distinct(s.drop_last());
        if is_merged(s.last()) {
            let rest = merged_names(s.drop_last());
            assert forall|k: int| 0 <= k < rest.len() implies rest[k] != s.last().name@ by {
                lemma_merged_names_in_branches(s.drop_last());
                let n = rest[k];
                assert(has_branch(s.drop_last(), n));
                let i = choose|i: int| 0 <= i < s.drop_last().len() && s.drop_last()[i].name@ == n;
                assert(s[i].name@ == n);
                assert(s[i].name@ != s[s.len() - 1].name@);
            };
        }
    }
}

/// The default rule selects no name exactly when no branch is `MERGED`.
pub proof fn lemma_merged_names_empty(s: Seq<BCBranch>)
    ensures
        merged_names(s).len() == 0 <==> forall|i: int| 0 <= i < s.len() ==> !is_merged(s[i]),
    decreases s.len(),
{
    if s.len() > 0 {
        lemma_merged_names_empty(s.drop_last());
        if merged_names(s).len() == 0 {
            assert forall|i: int| 0 <= i < s.len() implies !is_merged(s[i]) by {
                if i < s.len() - 1 {
                    assert(s.drop_last()[i] == s[i]);
                } else {
                    assert(s[i] == s.last());
                }
            }
        }
        if forall|i: int| 0 <= i < s.len() ==> !is_merged(s[i]) {
            assert(!is_merged(s.last()));
            assert(forall|i: int| 0 <= i < s.drop_last().len() ==> s.drop_last()[i] == s[i]);
        }
    }
}

/// What survives `remove_named`: branches of `s` whose names are not listed.
pub proof fn lemma_remove_named_membership(s: Seq<BCBranch>, names: Seq<Seq<char>>)
    ensures
        forall|k: int| 0 <= k < remove_named(s, names).len() ==> {
            &&& !name_in(names, (#[trigger] remove_named(s, names)[k]).name@)
            &&& s.contains(remove_named(s, names)[k])
        },
    decreases s.len(),
{
    if s.len() > 0 {
        lemma_remove_named_membership(s.drop_last(), names);
        assert(forall|k: int|
            0 <= k < s.drop_last().len() ==> s.contains(#[trigger] s.drop_last()[k]));
        let out = remove_named(s, names);
        let rest = remove_named(s.drop_last(), names);
        assert forall|k: int| 0 <= k < out.len() implies {
            &&& !name_in(names, (#[trigger] out[k]).name@)
            &&& s.contains(out[k])
        } by {
            if name_in(names, s.last().name@) {
                assert(out[k] == rest[k]);
                assert(s.drop_last().contains(rest[k]));
            } else {
                if k < out.len() - 1 {
                    assert(out[k] == rest[k]);
                    assert(s.drop_last().contains(rest[k]));
                } else {
                    assert(out[k] == s.last());
                    assert(s[s.len() - 1] == s.last());
                }
            }
        }
    }
}

/// Removing named branches keeps the remaining names distinct.
pub proof fn lemma_remove_named_unique(s: Seq<BCBranch>, names: Seq<Seq<char>>)
    requires
        unique_names(s),
    ensures
        unique_names(remove_named(s, names)),
    decreases s.len(),
{
    if s.len() > 0 {
        assert(forall|i: int, j: int|
            0 <= i < j < s.drop_last().len() ==> s.drop_last()[i].name@ != s.drop_last()[j].name@);
        lemma_remove_named_unique(s.drop_last(), names);
        if !name_in(names, s.last().name@) {
            let rest = remove_named(s.drop_last(), names);
            lemma_remove_named_membership(s.drop_last(), names);
            assert forall|k: int| 0 <= k < rest.len() implies rest[k].name@ != s.last().name@ by {
                assert(s.drop_last().contains(rest[k]));
                let i = choose|i: int| 0 <= i < s.drop_last().len() && s.drop_last()[i] == rest[k];
                assert(s[i] == rest[k]);
                assert(s[i].name@ != s[s.len() - 1].name@);
            };
        }
    }
}

} // verus!
