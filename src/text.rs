//! Texts as characters and as lines.
use vstd::prelude::*;

verus! {

/// The characters of `s`, in order.
pub fn chars_of(s: &str) -> (r: Vec<char>)
    ensures
        r@ == s@,
{
    let mut out: Vec<char> = Vec::new();
    for c in it: s.chars()
        invariant
            it.seq() == s@,
            out@ == it.seq().take(it.index() as int),
    {
        out.push(c);
    }
    assert(out@ =~= s@);
    out
}

/// Index of the first line feed at or after `i`, or `s.len()` when there is none.
pub open spec fn line_end(s: Seq<char>, i: int) -> int
    decreases s.len() - i,
{
    if i >= s.len() {
        s.len() as int
    } else if s[i] == '\n' {
        i
    } else {
        line_end(s, i + 1)
    }
}

/// The lines of `s` from position `i` on: split at `\n` or `\r\n`, the
/// terminators dropped, a final terminator optional.
pub open spec fn lines_from(s: Seq<char>, i: int) -> Seq<Seq<char>>
    decreases s.len() - i,
{
    if i < 0 || i >= s.len() {
        seq![]
    } else {
        let e = line_end(s, i);
        let body = if e < s.len() && e > i && s[e - 1] == '\r' {
            s.subrange(i, e - 1)
        } else {
            s.subrange(i, if e < i { i } else { e })
        };
        if i <= e && e < s.len() {
            seq![body] + lines_from(s, e + 1)
        } else {
            seq![body]
        }
    }
}

/// The lines of `s`.
pub open spec fn lines_of(s: Seq<char>) -> Seq<Seq<char>> {
    lines_from(s, 0)
}

/// Relies on `String::push`: the character is appended at the end.
pub assume_specification[ String::push ](s: &mut String, ch: char)
    ensures
        final(s)@ == old(s)@.push(ch),
;

/// Past a stretch without line feeds, the next line feed is the same.
proof fn lemma_line_end_skip(s: Seq<char>, a: int, b: int)
    requires
        0 <= a <= b <= s.len(),
        forall|t: int| a <= t < b ==> s[t] != '\n',
    ensures
        line_end(s, a) == line_end(s, b),
    decreases b - a,
{
    if a < b {
        lemma_line_end_skip(s, a + 1, b);
    }
}

/// The characters of `cs` from `from` up to `to`, as a string.
fn text_of(cs: &Vec<char>, from: usize, to: usize) -> (r: String)
    requires
        from <= to <= cs@.len(),
    ensures
        r@ == cs@.subrange(from as int, to as int),
{
    let mut out = String::new();
    let mut i: usize = from;
    while i < to
        invariant
            from <= i <= to <= cs@.len(),
            out@ == cs@.subrange(from as int, i as int),
        decreases to - i,
    {
        out.push(cs[i]);
        assert(out@ =~= cs@.subrange(from as int, i + 1));
        i = i + 1;
    }
    out
}

/// The lines of a text: split at `\n` or `\r\n`, without their terminators,
/// a final terminator being optional.
pub fn text_lines(s: &str) -> (r: Vec<String>)
    ensures
        r.deep_view() == lines_of(s@),
{
    let cs = chars_of(s);
    let n = cs.len();
    let mut out: Vec<String> = Vec::new();
    let mut start: usize = 0;
    let mut i: usize = 0;
    assert(out.deep_view() + lines_from(s@, 0) =~= lines_of(s@));
    while i < n
        invariant
            cs@ == s@,
            n == s@.len(),
            start <= i <= n,
            forall|t: int| start <= t < i ==> s@[t] != '\n',
            out.deep_view() + lines_from(s@, start as int) == lines_of(s@),
        decreases n - i,
    {
        if cs[i] == '\n' {
            proof {
                lemma_line_end_skip(s@, start as int, i as int);
            }
            let end = if i > start && cs[i - 1] == '\r' { i - 1 } else { i };
            let line = text_of(&cs, start, end);
            let ghost before = out.deep_view();
            out.push(line);
            assert(lines_from(s@, start as int) == seq![line@] + lines_from(s@, i + 1));
            assert(out.deep_view() =~= before.push(line@));
            assert(out.deep_view() + lines_from(s@, i + 1) =~= before + lines_from(s@, start as int));
            start = i + 1;
        }
        i = i + 1;
    }
    if start < n {
        proof {
            lemma_line_end_skip(s@, start as int, n as int);
        }
        let line = text_of(&cs, start, n);
        let ghost before = out.deep_view();
        out.push(line);
        assert(lines_from(s@, start as int) == seq![line@]);
        assert(out.deep_view() =~= before + lines_from(s@, start as int));
    } else {
        assert(out.deep_view() =~= out.deep_view() + lines_from(s@, start as int));
    }
    out
}

} // verus!
