//! Ignore patterns: plain substring matching on the textual form of a path.
use vstd::prelude::*;

use crate::text::{chars_of, lines_of, text_lines};

verus! {

/// `needle` occurs in `hay` starting at position `i`.
pub open spec fn occurs_at(needle: Seq<char>, hay: Seq<char>, i: int) -> bool {
    0 <= i && i + needle.len() <= hay.len() && hay.subrange(i, i + needle.len()) == needle
}

/// `needle` is a (possibly empty) contiguous part of `hay`.
pub open spec fn is_substring(needle: Seq<char>, hay: Seq<char>) -> bool {
    exists|i: int| #[trigger] occurs_at(needle, hay, i)
}

/// Some pattern of `patterns` is a substring of `path`.
pub open spec fn matches_any(path: Seq<char>, patterns: Seq<Seq<char>>) -> bool {
    exists|k: int| 0 <= k < patterns.len() && #[trigger] is_substring(patterns[k], path)
}

/// An empty pattern set suppresses no path.
pub proof fn no_patterns_match_nothing(path: Seq<char>)
    ensures
        !matches_any(path, seq![]),
{
}

/// Whether `needle` occurs in `hay` at position `i`.
fn occurs_at_exec(needle: &Vec<char>, hay: &Vec<char>, i: usize) -> (r: bool)
    requires
        i + needle@.len() <= hay@.len(),
    ensures
        r == occurs_at(needle@, hay@, i as int),
{
    let hay_len = hay.len();
    let mut j: usize = 0;
    while j < needle.len()
        invariant
            hay_len == hay@.len(),
            i + needle@.len() <= hay@.len(),
            j <= needle@.len(),
            forall|t: int| 0 <= t < j ==> hay@[i + t] == needle@[t],
        decreases needle@.len() - j,
    {
        if hay[i + j] != needle[j] {
            assert(hay@.subrange(i as int, i + needle@.len())[j as int] != needle@[j as int]);
            return false;
        }
        j = j + 1;
    }
    assert(hay@.subrange(i as int, i + needle@.len()) =~= needle@);
    true
}

/// Whether `needle` is a substring of `hay`.
pub fn contains_text(hay: &str, needle: &str) -> (r: bool)
    ensures
        r == is_substring(needle@, hay@),
{
    let h = chars_of(hay);
    let n = chars_of(needle);
    if n.len() > h.len() {
        return false;
    }
    let last = h.len() - n.len();
    let mut i: usize = 0;
    while i <= last
        invariant
            h@ == hay@,
            n@ == needle@,
            last == hay@.len() - needle@.len(),
            i <= last + 1,
            forall|t: int| 0 <= t < i ==> !occurs_at(needle@, hay@, t),
        decreases last + 1 - i,
    {
        if occurs_at_exec(&n, &h, i) {
            return true;
        }
        if i == last {
            return false;
        }
        i = i + 1;
    }
    false
}

/// Whether the textual form of `path` contains any of `ignore_patterns`.
pub fn match_ignore_patterns(path: &str, ignore_patterns: &Vec<String>) -> (r: bool)
    ensures
        r == matches_any(path@, ignore_patterns.deep_view()),
        ignore_patterns@.len() == 0 ==> !r,
{
    let mut k: usize = 0;
    while k < ignore_patterns.len()
        invariant
            k <= ignore_patterns@.len(),
            forall|t: int| 0 <= t < k ==> !is_substring(#[trigger] ignore_patterns.deep_view()[t], path@),
        decreases ignore_patterns@.len() - k,
    {
        if contains_text(path, ignore_patterns[k].as_str()) {
            assert(is_substring(ignore_patterns.deep_view()[k as int], path@));
            return true;
        }
        k = k + 1;
    }
    false
}

/// A line of the ignore file that holds a pattern: neither empty nor a comment.
pub open spec fn is_pattern_line(line: Seq<char>) -> bool {
    line.len() > 0 && line[0] != '#'
}

/// The pattern lines among `lines`, in order.
pub open spec fn pattern_lines(lines: Seq<Seq<char>>) -> Seq<Seq<char>>
    decreases lines.len(),
{
    if lines.len() == 0 {
        seq![]
    } else if is_pattern_line(lines.last()) {
        pattern_lines(lines.drop_last()).push(lines.last())
    } else {
        pattern_lines(lines.drop_last())
    }
}

/// The ignore patterns that an ignore file's text holds: one per line, empty
/// lines and lines starting with `#` skipped.
pub fn ignore_patterns_from(content: &str) -> (r: Vec<String>)
    ensures
        r.deep_view() == pattern_lines(lines_of(content@)),
{
    let lines = text_lines(content);
    let ghost ls = lines.deep_view();
    let mut out: Vec<String> = Vec::new();
    let mut i: usize = 0;
    assert(out.deep_view() =~= pattern_lines(ls.take(0)));
    while i < lines.len()
        invariant
            ls == lines.deep_view(),
            ls == lines_of(content@),
            i <= ls.len(),
            out.deep_view() == pattern_lines(ls.take(i as int)),
        decreases ls.len() - i,
    {
        assert(ls.take(i + 1).drop_last() =~= ls.take(i as int));
        assert(ls.take(i + 1).last() == ls[i as int]);
        let line = lines[i].as_str();
        if line.unicode_len() > 0 && line.get_char(0) != '#' {
            out.push(lines[i].clone());
            assert(out.deep_view() =~= pattern_lines(ls.take(i as int)).push(ls[i as int]));
        }
        i = i + 1;
    }
    assert(ls.take(ls.len() as int) =~= ls);
    out
}

} // verus!
