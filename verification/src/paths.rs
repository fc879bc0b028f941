//! Path text handling: tilde expansion, joining a relative path onto a
//! base directory, and taking the directory part of a file path.  Paths
//! are held as plain strings with `/` as the separator.

use vstd::prelude::*;

verus! {

/// Whether the path text starts with `/`.
pub open spec fn is_absolute_path(s: Seq<char>) -> bool {
    s.len() > 0 && s[0] == '/'
}

/// Whether the path text starts with `~`.
pub open spec fn starts_with_tilde(s: Seq<char>) -> bool {
    s.len() > 0 && s[0] == '~'
}

/// `rel` appended onto `base`: unchanged when `base` is empty, with one
/// `/` between them unless `base` already ends in one.
pub open spec fn spec_join_path(base: Seq<char>, rel: Seq<char>) -> Seq<char> {
    if base.len() == 0 {
        rel
    } else if base.last() == '/' {
        base + rel
    } else {
        base + seq!['/'] + rel
    }
}

/// `p` itself when absolute, else `p` joined onto `base`.
pub open spec fn spec_resolve(base: Seq<char>, p: Seq<char>) -> Seq<char> {
    if is_absolute_path(p) {
        p
    } else {
        spec_join_path(base, p)
    }
}

/// Join a relative path onto a base directory.
pub fn join_path(base: &str, rel: &str) -> (r: String)
    ensures
        r@ == spec_join_path(base@, rel@),
{
    let n = base.unicode_len();
    if n == 0 {
        return String::from_str(rel);
    }
    let last = base.get_char(n - 1);
    let mut out = String::from_str(base);
    if last != '/' {
        proof {
            reveal_strlit("/");
        }
        out.append("/");
    }
    out.append(rel);
    out
}

/// Expand a leading `~` through the shell convention; any other path is
/// returned unchanged.
pub fn expand_tilde(p: &str) -> (r: String)
    ensures
        !starts_with_tilde(p@) ==> r@ == p@,
{
    if p.unicode_len() > 0 {
        let c = p.get_char(0);
        if c == '~' {
            return tilde_expand(p);
        }
    }
    String::from_str(p)
}

/// Relies on `shellexpand::tilde` to rewrite a leading `~` to the home
/// directory.  The result depends on the environment, so nothing is
/// promised of it.
#[verifier::external_body]
fn tilde_expand(p: &str) -> String {
    shellexpand::tilde(p).into_owned()
}

/// Resolve an optional path against a base directory: absent stays
/// absent, a leading `~` is expanded first, an absolute path stands
/// alone, and a relative one is joined onto `base_dir`.
pub fn resolve_relative(base_dir: &str, maybe_path: &Option<String>) -> (r: Option<String>)
    ensures
        r is Some <==> maybe_path is Some,
        maybe_path matches Some(p) ==> r matches Some(q) && (!starts_with_tilde(p@) ==> q@
            == spec_resolve(base_dir@, p@)) && (exists|e: Seq<char>|
            q@ == spec_resolve(base_dir@, e)),
{
    match maybe_path {
        None => None,
        Some(p) => {
            let expanded = expand_tilde(p.as_str());
            let resolved = resolve_with(base_dir, expanded.as_str());
            proof {
                assert(resolved@ == spec_resolve(base_dir@, expanded@));
            }
            Some(resolved)
        },
    }
}

/// Place an already-expanded path against a base directory: itself when
/// absolute, joined onto `base_dir` otherwise.
pub fn resolve_with(base_dir: &str, p: &str) -> (r: String)
    ensures
        r@ == spec_resolve(base_dir@, p@),
{
    let n = p.unicode_len();
    if n > 0 {
        let c = p.get_char(0);
        if c == '/' {
            return String::from_str(p);
        }
    }
    join_path(base_dir, p)
}

/// Index just past the last `/` in `[0, i)`, or `0` when none stands
/// there.
pub open spec fn after_last_slash(s: Seq<char>, i: int) -> int
    recommends
        0 <= i <= s.len(),
    decreases i when 0 <= i
{
    if i <= 0 {
        0
    } else if s[i - 1] == '/' {
        i
    } else {
        after_last_slash(s, i - 1)
    }
}

/// `after_last_slash` stays within `[0, i]`.
pub proof fn lemma_after_last_slash_range(s: Seq<char>, i: int)
    requires
        0 <= i <= s.len(),
    ensures
        0 <= after_last_slash(s, i) <= i,
    decreases i,
{
    if i > 0 && s[i - 1] != '/' {
        lemma_after_last_slash_range(s, i - 1);
    }
}

/// The directory part of a file path: the text before the last `/` —
/// empty when the path holds no `/` at all, `/` when that slash opens
/// the path — and `.` for the empty path and the bare root, which have
/// no parent.
pub open spec fn spec_parent_dir(s: Seq<char>) -> Seq<char> {
    let a = after_last_slash(s, s.len() as int);
    if s.len() == 0 {
        seq!['.']
    } else if a == 0 {
        Seq::empty()
    } else if a == 1 {
        if s.len() == 1 {
            seq!['.']
        } else {
            seq!['/']
        }
    } else {
        s.take(a - 1)
    }
}

/// The directory part of a file path, for resolving other paths next to
/// it.
pub fn parent_dir(s: &str) -> (r: String)
    ensures
        r@ == spec_parent_dir(s@),
{
    let n = s.unicode_len();
    let mut i = n;
    while i > 0
        invariant
            i <= n,
            n == s@.len(),
            after_last_slash(s@, n as int) == after_last_slash(s@, i as int),
        ensures
            i == after_last_slash(s@, n as int),
        decreases i,
    {
        let c = s.get_char(i - 1);
        if c == '/' {
            break ;
        }
        i = i - 1;
    }
    proof {
        reveal_strlit(".");
        reveal_strlit("/");
        reveal_strlit("");
    }
    if n == 0 {
        String::from_str(".")
    } else if i == 0 {
        String::from_str("")
    } else if i == 1 {
        if n == 1 {
            String::from_str(".")
        } else {
            String::from_str("/")
        }
    } else {
        let out = s.substring_char(0, i - 1);
        String::from_str(out)
    }
}

} // verus!
