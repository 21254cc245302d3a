//! The shape of remote URLs on which the outside URL parser stays on its
//! defined paths, and a verified scanner that decides it.
//!
//! When the parser's hier-part grammar rejects what follows an "ssh"-like
//! scheme, the parser substitutes an empty path and then slices its first
//! character off, which panics. The grammar rejects the remainder exactly
//! when no path follows the authority, when a character outside its
//! authority classes stands before the first '/', or when a user-info run
//! before an '@' does not split at its first colon into a non-empty user
//! and a non-empty token. `ssh_url_ill_formed` describes these URLs over
//! plain characters; on every URL in the set the parser can only reject
//! or panic, never produce an owner and repository, so rejecting them
//! before the call keeps the observed behaviour. Non-ASCII characters
//! before the first '/' are treated conservatively: the URL counts as
//! ill-formed rather than classified.
use vstd::prelude::*;

use vstd::string::StrSliceExecFns;

verus! {

/// ASCII characters the parser accepts in an authority: letters, digits,
/// the RFC 3986 unreserved marks and sub-delimiters (the parser counts
/// backslash among the latter), plus ':' and '@'.
pub open spec fn authority_char(c: char) -> bool {
    ||| ('a' as u32 <= c as u32 && c as u32 <= 'z' as u32)
    ||| ('A' as u32 <= c as u32 && c as u32 <= 'Z' as u32)
    ||| ('0' as u32 <= c as u32 && c as u32 <= '9' as u32)
    ||| c == '-' || c == '.' || c == '_' || c == '~'
    ||| c == '!' || c == '$' || c == '&' || c == '\'' || c == '(' || c == ')'
    ||| c == '*' || c == '+' || c == ',' || c == ';' || c == '=' || c == '\\'
    ||| c == ':' || c == '@'
}

/// Characters the parser admits in the user-info run before an '@'.
pub open spec fn userinfo_char(c: char) -> bool {
    authority_char(c) && c != '@'
}

/// "://" stands at position i of u.
pub open spec fn scheme_sep_at(u: Seq<char>, i: int) -> bool {
    &&& 0 <= i
    &&& i + 3 <= u.len()
    &&& u[i] == ':'
    &&& u[i + 1] == '/'
    &&& u[i + 2] == '/'
}

/// i is the first "://" of u.
pub open spec fn is_first_scheme_sep(u: Seq<char>, i: int) -> bool {
    scheme_sep_at(u, i) && (forall|j: int| 0 <= j < i ==> !scheme_sep_at(u, j))
}

/// "ssh" stands at position k of u.
pub open spec fn ssh_at(u: Seq<char>, k: int) -> bool {
    &&& 0 <= k
    &&& k + 3 <= u.len()
    &&& u[k] == 's'
    &&& u[k + 1] == 's'
    &&& u[k + 2] == 'h'
}

/// "ssh" occurs in u wholly before position hi — the parser's test for an
/// ssh-like scheme.
pub open spec fn ssh_before(u: Seq<char>, hi: int) -> bool {
    exists|k: int| k + 3 <= hi && #[trigger] ssh_at(u, k)
}

/// s is the first '/' of u at or after lo.
pub open spec fn is_first_slash_from(u: Seq<char>, lo: int, s: int) -> bool {
    &&& lo <= s < u.len()
    &&& u[s] == '/'
    &&& forall|j: int| lo <= j < s ==> u[j] != '/'
}

/// r is where the user-info run starting at lo ends: the first position at
/// or after lo whose character the run does not admit.
pub open spec fn is_userinfo_run_end(u: Seq<char>, lo: int, r: int) -> bool {
    &&& lo <= r < u.len()
    &&& !userinfo_char(u[r])
    &&& forall|j: int| lo <= j < r ==> userinfo_char(u[j])
}

/// c is the first ':' of u in [lo, hi).
pub open spec fn is_first_colon_in(u: Seq<char>, lo: int, hi: int, c: int) -> bool {
    &&& lo <= c < hi
    &&& u[c] == ':'
    &&& forall|j: int| lo <= j < c ==> u[j] != ':'
}

/// The user-info run [lo, r) passes the parser: it is not followed by an
/// '@' (so it is no user-info at all), or it is empty, or it has no colon,
/// or its first colon splits it into a non-empty user and non-empty token.
pub open spec fn userinfo_ok(u: Seq<char>, lo: int, r: int) -> bool {
    ||| u[r] != '@'
    ||| r == lo
    ||| (forall|j: int| lo <= j < r ==> u[j] != ':')
    ||| (exists|c: int|
        #[trigger] is_first_colon_in(u, lo, r, c) && c > lo && c + 1 < r && u[c + 1] != ':')
}

/// The tail of u after the "://" at sep is well shaped up to the first
/// slash s: every character before s is an ASCII authority character and
/// the user-info run splits well.
pub open spec fn tail_shape_ok(u: Seq<char>, sep: int, s: int) -> bool {
    &&& is_first_slash_from(u, sep + 3, s)
    &&& (forall|j: int| sep + 3 <= j < s ==> authority_char(#[trigger] u[j]))
    &&& (exists|r: int|
        #[trigger] is_userinfo_run_end(u, sep + 3, r) && r <= s && userinfo_ok(u, sep + 3, r))
}

/// The tail of u after the "://" at sep keeps the parser on its defined
/// paths: a '/' follows, every character before that slash is an ASCII
/// authority character, and the user-info run splits well.
pub open spec fn ssh_tail_ok(u: Seq<char>, sep: int) -> bool {
    exists|s: int| #[trigger] tail_shape_ok(u, sep, s)
}

/// URLs on which the outside parser can leave its defined paths: an
/// "ssh"-schemed URL with an ill-shaped tail. On all of them the parser
/// can only reject or panic, never produce an owner and repository.
pub open spec fn ssh_url_ill_formed(u: Seq<char>) -> bool {
    exists|i: int| #[trigger] is_first_scheme_sep(u, i) && ssh_before(u, i) && !ssh_tail_ok(u, i)
}

proof fn lemma_first_scheme_sep_unique(u: Seq<char>, a: int, b: int)
    requires
        is_first_scheme_sep(u, a),
        is_first_scheme_sep(u, b),
    ensures
        a == b,
{
    if a < b {
        assert(!scheme_sep_at(u, a));
    }
    if b < a {
        assert(!scheme_sep_at(u, b));
    }
}

proof fn lemma_first_slash_unique(u: Seq<char>, lo: int, a: int, b: int)
    requires
        is_first_slash_from(u, lo, a),
        is_first_slash_from(u, lo, b),
    ensures
        a == b,
{
    if a < b {
        assert(u[a] != '/');
    }
    if b < a {
        assert(u[b] != '/');
    }
}

proof fn lemma_userinfo_run_end_unique(u: Seq<char>, lo: int, a: int, b: int)
    requires
        is_userinfo_run_end(u, lo, a),
        is_userinfo_run_end(u, lo, b),
    ensures
        a == b,
{
    if a < b {
        assert(userinfo_char(u[a]));
    }
    if b < a {
        assert(userinfo_char(u[b]));
    }
}

proof fn lemma_first_colon_unique(u: Seq<char>, lo: int, hi: int, a: int, b: int)
    requires
        is_first_colon_in(u, lo, hi, a),
        is_first_colon_in(u, lo, hi, b),
    ensures
        a == b,
{
    if a < b {
        assert(u[a] != ':');
    }
    if b < a {
        assert(u[b] != ':');
    }
}

/// The characters of s, in order, as a vector the scanners can index.
fn chars_of(s: &str) -> (r: Vec<char>)
    ensures
        r@ == s@,
{
    let n = s.unicode_len();
    let mut out: Vec<char> = Vec::new();
    let mut i: usize = 0;
    while i < n
        invariant
            n == s@.len(),
            i <= n,
            out@.len() == i as int,
            forall|j: int| 0 <= j < i as int ==> out@[j] == s@[j],
        decreases n - i,
    {
        out.push(s.get_char(i));
        i += 1;
    }
    proof {
        assert(out@ =~= s@);
    }
    out
}

/// Decide `authority_char`.
fn is_authority_char(c: char) -> (r: bool)
    ensures
        r == authority_char(c),
{
    let x = c as u32;
    ('a' as u32 <= x && x <= 'z' as u32) || ('A' as u32 <= x && x <= 'Z' as u32) || ('0' as u32
        <= x && x <= '9' as u32) || c == '-' || c == '.' || c == '_' || c == '~' || c == '!' || c
        == '$' || c == '&' || c == '\'' || c == '(' || c == ')' || c == '*' || c == '+' || c == ','
        || c == ';' || c == '=' || c == '\\' || c == ':' || c == '@'
}

/// Decide `userinfo_char`.
fn is_userinfo_char(c: char) -> (r: bool)
    ensures
        r == userinfo_char(c),
{
    is_authority_char(c) && c != '@'
}

/// The first "://" of the characters, if any.
fn find_scheme_sep(u: &Vec<char>) -> (r: Option<usize>)
    ensures
        match r {
            Some(p) => is_first_scheme_sep(u@, p as int),
            None => forall|j: int| !scheme_sep_at(u@, j),
        },
{
    let n = u.len();
    if n < 3 {
        return None;
    }
    let mut i: usize = 0;
    while i <= n - 3
        invariant
            n == u@.len(),
            3 <= n,
            i <= n - 2,
            forall|j: int| 0 <= j < i as int ==> !scheme_sep_at(u@, j),
        decreases n - i,
    {
        if u[i] == ':' && u[i + 1] == '/' && u[i + 2] == '/' {
            return Some(i);
        }
        i += 1;
    }
    None
}

/// Whether "ssh" occurs wholly before position hi.
fn contains_ssh_before(u: &Vec<char>, hi: usize) -> (r: bool)
    requires
        hi <= u@.len(),
    ensures
        r == ssh_before(u@, hi as int),
{
    if hi < 3 {
        return false;
    }
    let mut k: usize = 0;
    while k <= hi - 3
        invariant
            hi <= u@.len(),
            3 <= hi,
            k <= hi - 2,
            forall|j: int| 0 <= j < k as int ==> !ssh_at(u@, j),
        decreases hi - k,
    {
        if u[k] == 's' && u[k + 1] == 's' && u[k + 2] == 'h' {
            assert(ssh_at(u@, k as int));
            return true;
        }
        k += 1;
    }
    false
}

/// The first '/' at or after lo, if any.
fn find_slash_from(u: &Vec<char>, lo: usize) -> (r: Option<usize>)
    requires
        lo <= u@.len(),
    ensures
        match r {
            Some(s) => is_first_slash_from(u@, lo as int, s as int),
            None => forall|j: int| lo as int <= j < u@.len() ==> u@[j] != '/',
        },
{
    let n = u.len();
    let mut i: usize = lo;
    while i < n
        invariant
            lo <= i <= n,
            n == u@.len(),
            forall|j: int| lo as int <= j < i as int ==> u@[j] != '/',
        decreases n - i,
    {
        if u[i] == '/' {
            return Some(i);
        }
        i += 1;
    }
    None
}

/// Where the user-info run starting at lo ends. The caller knows some
/// character at or after lo stops the run.
fn userinfo_run_end(u: &Vec<char>, lo: usize) -> (r: usize)
    requires
        lo < u@.len(),
        exists|j: int| lo as int <= j < u@.len() && !userinfo_char(u@[j]),
    ensures
        is_userinfo_run_end(u@, lo as int, r as int),
{
    let n = u.len();
    let mut i: usize = lo;
    while i < n
        invariant
            lo <= i <= n,
            n == u@.len(),
            exists|j: int| lo as int <= j < u@.len() && !userinfo_char(u@[j]),
            forall|j: int| lo as int <= j < i as int ==> userinfo_char(u@[j]),
        decreases n - i,
    {
        if !is_userinfo_char(u[i]) {
            return i;
        }
        i += 1;
    }
    proof {
        let j = choose|j: int| lo as int <= j < u@.len() && !userinfo_char(u@[j]);
        assert(userinfo_char(u@[j]));
        assert(false);
    }
    lo
}

/// The first ':' in [lo, hi), if any.
fn find_colon_in(u: &Vec<char>, lo: usize, hi: usize) -> (r: Option<usize>)
    requires
        lo <= hi <= u@.len(),
    ensures
        match r {
            Some(c) => is_first_colon_in(u@, lo as int, hi as int, c as int),
            None => forall|j: int| lo as int <= j < hi as int ==> u@[j] != ':',
        },
{
    let mut i: usize = lo;
    while i < hi
        invariant
            lo <= i <= hi <= u@.len(),
            forall|j: int| lo as int <= j < i as int ==> u@[j] != ':',
        decreases hi - i,
    {
        if u[i] == ':' {
            return Some(i);
        }
        i += 1;
    }
    None
}

/// Whether the user-info run ending at r_end passes the parser, exactly
/// as `userinfo_ok` states it.
fn userinfo_run_ok(u: &Vec<char>, lo: usize, r_end: usize) -> (r: bool)
    requires
        lo <= r_end < u@.len(),
    ensures
        r == userinfo_ok(u@, lo as int, r_end as int),
{
    if u[r_end] != '@' || r_end == lo {
        return true;
    }
    match find_colon_in(u, lo, r_end) {
        None => true,
        Some(c) => {
            let good = c > lo && c + 1 < r_end && u[c + 1] != ':';
            proof {
                assert forall|c2: int| #[trigger] is_first_colon_in(
                    u@,
                    lo as int,
                    r_end as int,
                    c2,
                ) implies c2 == c as int by {
                    lemma_first_colon_unique(u@, lo as int, r_end as int, c2, c as int);
                }
                assert(u@[c as int] == ':');
            }
            good
        },
    }
}

/// Decide `ssh_url_ill_formed` by scanning the characters once.
pub fn ssh_url_is_ill_formed(url: &str) -> (r: bool)
    ensures
        r == ssh_url_ill_formed(url@),
{
    let u = chars_of(url);
    let sep = match find_scheme_sep(&u) {
        None => {
            return false;
        },
        Some(p) => p,
    };
    proof {
        assert forall|i: int| #[trigger] is_first_scheme_sep(url@, i) implies i == sep as int by {
            lemma_first_scheme_sep_unique(url@, i, sep as int);
        }
    }
    if !contains_ssh_before(&u, sep) {
        return false;
    }
    let t0: usize = sep + 3;
    let s = match find_slash_from(&u, t0) {
        None => {
            proof {
                assert forall|s2: int| ! #[trigger] tail_shape_ok(url@, sep as int, s2) by {
                    if tail_shape_ok(url@, sep as int, s2) {
                        assert(t0 as int <= s2 < u@.len() && u@[s2] == '/');
                    }
                }
                assert(is_first_scheme_sep(url@, sep as int) && ssh_before(url@, sep as int)
                    && !ssh_tail_ok(url@, sep as int));
                assert(ssh_url_ill_formed(url@));
            }
            return true;
        },
        Some(s) => s,
    };
    let mut j: usize = t0;
    while j < s
        invariant
            t0 <= j <= s < u@.len(),
            t0 == sep as int + 3,
            u@ == url@,
            is_first_scheme_sep(url@, sep as int),
            ssh_before(url@, sep as int),
            is_first_slash_from(url@, t0 as int, s as int),
            forall|jj: int| t0 as int <= jj < j as int ==> authority_char(#[trigger] u@[jj]),
        decreases s - j,
    {
        if !is_authority_char(u[j]) {
            proof {
                assert forall|s2: int| ! #[trigger] tail_shape_ok(url@, sep as int, s2) by {
                    if tail_shape_ok(url@, sep as int, s2) {
                        lemma_first_slash_unique(url@, t0 as int, s2, s as int);
                        assert(authority_char(url@[j as int]));
                    }
                }
            }
            return true;
        }
        j += 1;
    }
    proof {
        assert(!userinfo_char(url@[s as int]));
    }
    let r_end = userinfo_run_end(&u, t0);
    proof {
        assert(r_end as int <= s as int) by {
            if r_end as int > s as int {
                assert(userinfo_char(url@[s as int]));
            }
        }
    }
    let ui_ok = userinfo_run_ok(&u, t0, r_end);
    if ui_ok {
        proof {
            assert(tail_shape_ok(url@, sep as int, s as int));
        }
        false
    } else {
        proof {
            assert forall|s2: int| ! #[trigger] tail_shape_ok(url@, sep as int, s2) by {
                if tail_shape_ok(url@, sep as int, s2) {
                    lemma_first_slash_unique(url@, t0 as int, s2, s as int);
                    let r2 = choose|r2: int|
                        #[trigger] is_userinfo_run_end(url@, t0 as int, r2) && r2 <= s2
                            && userinfo_ok(url@, t0 as int, r2);
                    lemma_userinfo_run_end_unique(url@, t0 as int, r2, r_end as int);
                }
            }
        }
        true
    }
}

} // verus!
