//! The repository-facing edge of the core: listing branch names through an
//! abstract repository, choosing which of them are cleanup candidates, and
//! parsing the remote URL into owner and repository.
use vstd::prelude::*;

use crate::error::BranchCleanerError;
use crate::url_shape::ssh_url_ill_formed;
use crate::url_shape::ssh_url_is_ill_formed;

verus! {

/// Lists local branch names; implemented over a real repository outside
/// this crate and by in-memory doubles in tests.
pub trait BranchRepository {
    /// The branch names the repository would list. The default body is a
    /// placeholder so that unverified implementations outside this crate
    /// need not provide one; a verified implementation overrides it.
    open spec fn branch_names(&self) -> Seq<Seq<char>> {
        Seq::empty()
    }

    /// List the local branch names.
    fn list_branch_names(&self) -> (r: Vec<String>)
        ensures
            r.deep_view() == self.branch_names(),
    ;
}

/// The local branch names of a repository, exactly as it lists them.
pub fn get_local_branches<T: BranchRepository>(branches: &T) -> (r: Vec<String>)
    ensures
        r.deep_view() == branches.branch_names(),
{
    branches.list_branch_names()
}

/// Branch names never offered for deletion.
pub open spec fn is_protected_name(n: Seq<char>) -> bool {
    n == "main"@ || n == "master"@ || n == "develop"@ || n == "development"@
}

/// The names that remain cleanup candidates: protected names and the
/// currently checked-out branch are excluded, order kept.
pub open spec fn deletable_names(names: Seq<Seq<char>>, current: Option<Seq<char>>) -> Seq<
    Seq<char>,
>
    decreases names.len(),
{
    if names.len() == 0 {
        Seq::empty()
    } else {
        let rest = deletable_names(names.drop_last(), current);
        if is_protected_name(names.last()) || current == Some(names.last()) {
            rest
        } else {
            rest.push(names.last())
        }
    }
}

/// Whether this name is one of the protected branch names.
fn is_protected(name: &String) -> (r: bool)
    ensures
        r == is_protected_name(name@),
{
    let m1: String = "main".to_owned();
    let m2: String = "master".to_owned();
    let m3: String = "develop".to_owned();
    let m4: String = "development".to_owned();
    *name == m1 || *name == m2 || *name == m3 || *name == m4
}

/// Filter listed branch names down to cleanup candidates: protected names
/// and the currently checked-out branch are dropped.
pub fn deletable_branch_names(names: Vec<String>, current: &Option<String>) -> (r: Vec<String>)
    ensures
        r.deep_view() == deletable_names(names.deep_view(), current.deep_view()),
{
    let mut out: Vec<String> = Vec::new();
    let mut i: usize = 0;
    while i < names.len()
        invariant
            i <= names@.len(),
            out.deep_view() == deletable_names(
                names.deep_view().subrange(0, i as int),
                current.deep_view(),
            ),
        decreases names@.len() - i,
    {
        proof {
            assert(names.deep_view().subrange(0, i as int + 1).drop_last() =~= names.deep_view()
                .subrange(0, i as int));
            assert(names.deep_view().subrange(0, i as int + 1).last() == names.deep_view()[
                i as int]);
        }
        let is_current = match current {
            Some(c) => names[i] == *c,
            None => false,
        };
        if !is_protected(&names[i]) && !is_current {
            out.push(names[i].clone());
            proof {
                assert(out.deep_view() =~= deletable_names(
                    names.deep_view().subrange(0, i as int + 1),
                    current.deep_view(),
                ));
            }
        }
        i += 1;
    }
    proof {
        assert(names.deep_view().subrange(0, names.deep_view().len() as int) =~= names
            .deep_view());
    }
    out
}

/// What an owner/repository pair extracted from `url` is, when the URL has
/// the shape of a git remote pointing at a hosting provider; `None` when it
/// has not. Names the combined result of `git_url_parse::GitUrl::parse`
/// and `GitUrl::provider_info::<GenericProvider>`, a function of the URL
/// string alone.
pub uninterp spec fn parsed_remote(url: Seq<char>) -> Option<(Seq<char>, Seq<char>)>;

/// Relies on `git_url_parse::GitUrl::parse` and
/// `GitUrl::provider_info::<GenericProvider>`: both are pure parsers, so
/// owner and repository are a function of the URL string alone, which
/// `parsed_remote` names; the two calls are chained here because the
/// intermediate `GitUrl` value cannot be spoken about. The error message is
/// passed through unconstrained. On an ill-formed "ssh"-schemed URL
/// `GitUrl::parse` substitutes an empty path and panics slicing it, so the
/// precondition keeps those URLs out.
#[verifier::external_body]
fn parse_remote_pieces(url: &str) -> (r: Result<(String, String), String>)
    requires
        !ssh_url_ill_formed(url@),
    ensures
        match r {
            Ok(p) => parsed_remote(url@) matches Some(q) && p.0@ == q.0 && p.1@ == q.1,
            Err(_) => parsed_remote(url@) is None,
        },
{
    let parsed = match git_url_parse::GitUrl::parse(url) {
        Ok(g) => g,
        Err(e) => return Err(e.to_string()),
    };
    let provider: git_url_parse::types::provider::GenericProvider = match parsed.provider_info() {
        Ok(p) => p,
        Err(e) => return Err(e.to_string()),
    };
    Ok((provider.owner().to_string(), provider.repo().to_string()))
}

/// Parse a git remote URL (SSH or HTTPS form) into the hosting provider's
/// owner and repository names. An ill-formed "ssh"-schemed URL — one with
/// no path after its authority, a character outside the parser's authority
/// classes before the first '/', or a user-info run that does not split —
/// is rejected up front, where the parser itself could only have rejected
/// it or panicked.
pub fn parse_github_remote(url: &str) -> (r: Result<(String, String), BranchCleanerError>)
    ensures
        ssh_url_ill_formed(url@) ==> r is Err,
        match r {
            Ok(p) => !ssh_url_ill_formed(url@) && (parsed_remote(url@) matches Some(q) && p.0@
                == q.0 && p.1@ == q.1),
            Err(e) => e is RemoteParseError && (!ssh_url_ill_formed(url@) ==> parsed_remote(url@)
                is None),
        },
{
    if ssh_url_is_ill_formed(url) {
        return Err(
            BranchCleanerError::RemoteParseError("ssh remote URL has no usable path".to_owned()),
        );
    }
    match parse_remote_pieces(url) {
        Ok(p) => Ok(p),
        Err(m) => Err(BranchCleanerError::RemoteParseError(m)),
    }
}

} // verus!
