//! Repository inspection: turns the version-control tool's answers about a
//! working directory into the ordered list of reasons it counts as dirty.
use vstd::prelude::*;

use crate::text::{chars_of, lines_of, text_lines};

verus! {

/// What `str::trim` returns for `s`.
pub uninterp spec fn trim_of(s: Seq<char>) -> Seq<char>;

/// Relies on `str::trim`: leading and trailing whitespace removed.
#[verifier::external_body]
fn trim_text(s: &str) -> (r: String)
    ensures
        r@ == trim_of(s@),
{
    s.trim().to_string()
}

/// The reasons a repository can be dirty, in the order they are given.
pub open spec fn reason_not_default() -> Seq<char> {
    "not on default branch"@
}

pub open spec fn reason_changes() -> Seq<char> {
    "files added, modified, or removed"@
}

pub open spec fn reason_stash() -> Seq<char> {
    "stash is not empty"@
}

/// `name` is one of the conventional default branch names.
pub open spec fn is_default_branch_spec(name: Seq<char>) -> bool {
    name == "main"@ || name == "master"@
}

/// The branch is known and it is not a default one.
pub open spec fn off_default_branch(branch: Option<Seq<char>>) -> bool {
    match branch {
        Some(b) => !is_default_branch_spec(b),
        None => false,
    }
}

/// The reasons a repository is dirty, in the fixed order branch, status, stash,
/// keeping only the checks that fired.
pub open spec fn reasons_of(branch: Option<Seq<char>>, changes: int, stashes: int) -> Seq<Seq<char>> {
    (if off_default_branch(branch) { seq![reason_not_default()] } else { seq![] })
        + (if changes > 0 { seq![reason_changes()] } else { seq![] })
        + (if stashes > 0 { seq![reason_stash()] } else { seq![] })
}

/// The path of a well-formed status line: a two-character code, one space, a
/// non-empty path.
pub open spec fn status_path_of(line: Seq<char>) -> Option<Seq<char>> {
    if line.len() >= 4 && line[2] == ' ' {
        Some(line.subrange(3, line.len() as int))
    } else {
        None
    }
}

/// The paths of the well-formed lines among `lines`, in order.
pub open spec fn status_paths_of(lines: Seq<Seq<char>>) -> Seq<Seq<char>>
    decreases lines.len(),
{
    if lines.len() == 0 {
        seq![]
    } else {
        let rest = status_paths_of(lines.drop_last());
        match status_path_of(lines.last()) {
            Some(p) => rest.push(p),
            None => rest,
        }
    }
}

/// The number of non-empty lines among `lines`.
pub open spec fn non_empty_count(lines: Seq<Seq<char>>) -> nat
    decreases lines.len(),
{
    if lines.len() == 0 {
        0
    } else {
        non_empty_count(lines.drop_last()) + if lines.last().len() > 0 { 1nat } else { 0nat }
    }
}

/// The text of an optional string.
pub open spec fn opt_view(o: Option<String>) -> Option<Seq<char>> {
    match o {
        Some(s) => Some(s@),
        None => None,
    }
}

/// Whether two texts are equal.
pub fn same_text(a: &str, b: &str) -> (r: bool)
    ensures
        r == (a@ == b@),
{
    let x = chars_of(a);
    let y = chars_of(b);
    if x.len() != y.len() {
        return false;
    }
    let mut i: usize = 0;
    while i < x.len()
        invariant
            x@ == a@,
            y@ == b@,
            x@.len() == y@.len(),
            i <= x@.len(),
            forall|t: int| 0 <= t < i ==> x@[t] == y@[t],
        decreases x@.len() - i,
    {
        if x[i] != y[i] {
            return false;
        }
        i = i + 1;
    }
    assert(x@ =~= y@);
    true
}

/// Whether `name` is `main` or `master`.
pub fn is_default_branch(name: &str) -> (r: bool)
    ensures
        r == is_default_branch_spec(name@),
{
    same_text(name, "main") || same_text(name, "master")
}

/// The current branch, from the branch query: its trimmed output when the
/// query succeeded and named a branch; nothing when it failed or the head is
/// detached (the query then answers `HEAD`).
pub fn branch_from_output(succeeded: bool, stdout: &str) -> (r: Option<String>)
    ensures
        opt_view(r) == (if succeeded && trim_of(stdout@) != "HEAD"@ {
            Some(trim_of(stdout@))
        } else {
            None
        }),
{
    if succeeded {
        let name = trim_text(stdout);
        if same_text(name.as_str(), "HEAD") {
            None
        } else {
            Some(name)
        }
    } else {
        None
    }
}

/// The path named by one status line, if the line is well formed.
pub fn status_path(line: &str) -> (r: Option<String>)
    ensures
        opt_view(r) == status_path_of(line@),
{
    let n = line.unicode_len();
    if n >= 4 && line.get_char(2) == ' ' {
        Some(String::from_str(line.substring_char(3, n)))
    } else {
        None
    }
}

/// The changed paths that the status query reported, malformed lines skipped;
/// none when the query failed.
pub fn status_paths(succeeded: bool, stdout: &str) -> (r: Vec<String>)
    ensures
        r.deep_view() == (if succeeded { status_paths_of(lines_of(stdout@)) } else { seq![] }),
{
    let mut out: Vec<String> = Vec::new();
    if !succeeded {
        assert(out.deep_view() =~= seq![]);
        return out;
    }
    let lines = text_lines(stdout);
    let ghost ls = lines.deep_view();
    let mut i: usize = 0;
    assert(out.deep_view() =~= status_paths_of(ls.take(0)));
    while i < lines.len()
        invariant
            ls == lines.deep_view(),
            ls == lines_of(stdout@),
            i <= ls.len(),
            out.deep_view() == status_paths_of(ls.take(i as int)),
        decreases ls.len() - i,
    {
        let found = status_path(lines[i].as_str());
        assert(ls.take(i + 1).drop_last() =~= ls.take(i as int));
        assert(ls.take(i + 1).last() == ls[i as int]);
        match found {
            Some(p) => {
                out.push(p);
                assert(out.deep_view() =~= status_paths_of(ls.take(i as int)).push(ls[i as int].subrange(3, ls[i as int].len() as int)));
            },
            None => {},
        }
        i = i + 1;
    }
    assert(ls.take(ls.len() as int) =~= ls);
    out
}

/// The number of stash entries: the non-empty lines of the stash listing, or
/// zero when the query failed.
pub fn stash_count(succeeded: bool, stdout: &str) -> (r: usize)
    ensures
        r == (if succeeded { non_empty_count(lines_of(stdout@)) } else { 0 }),
{
    if !succeeded {
        return 0;
    }
    let lines = text_lines(stdout);
    let ghost ls = lines.deep_view();
    let mut count: usize = 0;
    let mut i: usize = 0;
    while i < lines.len()
        invariant
            ls == lines.deep_view(),
            ls == lines_of(stdout@),
            i <= ls.len(),
            count == non_empty_count(ls.take(i as int)),
            count <= i,
        decreases ls.len() - i,
    {
        assert(ls.take(i + 1).drop_last() =~= ls.take(i as int));
        assert(ls.take(i + 1).last() == ls[i as int]);
        if lines[i].unicode_len() > 0 {
            count = count + 1;
        }
        i = i + 1;
    }
    assert(ls.take(ls.len() as int) =~= ls);
    count
}

/// The reasons the repository is dirty, from the three query results, in the
/// order branch, status, stash; empty for a clean repository.
pub fn dirty_reasons(branch: &Option<String>, status: &Vec<String>, stash_count: usize) -> (r: Vec<String>)
    ensures
        r.deep_view() == reasons_of(opt_view(*branch), status@.len() as int, stash_count as int),
{
    let mut out: Vec<String> = Vec::new();
    match branch {
        Some(b) => {
            if !is_default_branch(b.as_str()) {
                out.push(String::from_str("not on default branch"));
            }
        },
        None => {},
    }
    if status.len() > 0 {
        out.push(String::from_str("files added, modified, or removed"));
    }
    if stash_count > 0 {
        out.push(String::from_str("stash is not empty"));
    }
    assert(out.deep_view() =~= reasons_of(opt_view(*branch), status@.len() as int, stash_count as int));
    out
}

} // verus!
