//! Folding pull-request lookups into branch records: the pure half of the
//! enricher. The network call itself lives outside this crate; these
//! functions turn whatever it yielded into records, one per input name.
use vstd::prelude::*;

use crate::branch::BCBranch;
use crate::branch::PrStatus;

verus! {

/// Classify a found pull request: merged wins, then open; a pull request
/// that is neither open nor merged was closed without merging.
pub fn classify_pr(merged: bool, is_open: bool) -> (r: PrStatus)
    ensures
        r == if merged {
            PrStatus::MERGED
        } else if is_open {
            PrStatus::OPEN
        } else {
            PrStatus::CLOSED
        },
{
    if merged {
        PrStatus::MERGED
    } else if is_open {
        PrStatus::OPEN
    } else {
        PrStatus::CLOSED
    }
}

/// What the record for `name` must be, given the lookup outcome `found`:
/// the found pull request's data, or a bare `NONE` record both for "no
/// pull request" and for a failed lookup.
pub open spec fn record_matches(
    name: Seq<char>,
    found: Option<(PrStatus, u32, String)>,
    r: BCBranch,
) -> bool {
    &&& r.name@ == name
    &&& match found {
        Some(t) => {
            &&& r.pr_status == t.0
            &&& r.pr_number == Some(t.1)
            &&& r.pr_title matches Some(ti) && ti@ == t.2@
        },
        None => {
            &&& r.pr_status == PrStatus::NONE
            &&& r.pr_number is None
            &&& r.pr_title is None
        },
    }
}

/// One record from one lookup outcome. A failed lookup arrives as `None`
/// and degrades the branch to `NONE`; it never aborts the batch.
pub fn record_from_lookup(name: &str, found: &Option<(PrStatus, u32, String)>) -> (r: BCBranch)
    requires
        *found matches Some(t) ==> t.0.is_resolved(),
    ensures
        record_matches(name@, *found, r),
        r.pr_status.is_resolved(),
{
    match found {
        Some(t) => BCBranch::with_pr(name, t.0, t.1, t.2.as_str()),
        None => BCBranch::new(name, PrStatus::NONE),
    }
}

/// One record per name, in input order, from the aligned lookup outcomes;
/// no emitted record is ever left in the transient `LOADING` status.
pub fn enrich_records(
    names: &Vec<String>,
    lookups: &Vec<Option<(PrStatus, u32, String)>>,
) -> (r: Vec<BCBranch>)
    requires
        names@.len() == lookups@.len(),
        forall|i: int|
            0 <= i < lookups@.len() ==> ((#[trigger] lookups@[i]) matches Some(t)
                ==> t.0.is_resolved()),
    ensures
        r@.len() == names@.len(),
        forall|i: int|
            0 <= i < r@.len() ==> record_matches(
                names.deep_view()[i],
                lookups@[i],
                #[trigger] r@[i],
            ),
        forall|i: int| 0 <= i < r@.len() ==> (#[trigger] r@[i]).pr_status.is_resolved(),
{
    let mut out: Vec<BCBranch> = Vec::new();
    let mut i: usize = 0;
    while i < names.len()
        invariant
            names@.len() == lookups@.len(),
            forall|k: int|
                0 <= k < lookups@.len() ==> ((#[trigger] lookups@[k]) matches Some(t)
                    ==> t.0.is_resolved()),
            i <= names@.len(),
            out@.len() == i as int,
            forall|j: int|
                0 <= j < i as int ==> record_matches(
                    names.deep_view()[j],
                    lookups@[j],
                    #[trigger] out@[j],
                ),
            forall|j: int| 0 <= j < i as int ==> (#[trigger] out@[j]).pr_status.is_resolved(),
        decreases names@.len() - i,
    {
        out.push(record_from_lookup(names[i].as_str(), &lookups[i]));
        i += 1;
    }
    out
}

} // verus!
