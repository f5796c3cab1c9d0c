//! Reports: what a walk emits for each entry, and the line each one prints.
use vstd::prelude::*;

use crate::repo::opt_view;

verus! {

/// One event of a walk's output.
#[derive(Debug, PartialEq, Eq)]
pub enum Report {
    /// The argument a root was given as, shown before that root's output.
    Header(String),
    /// The blank line that closes a root's output.
    Separator,
    /// A file that no ignore pattern matches.
    File(String),
    /// A directory holding the exclusion marker; prints nothing.
    ExcludedDirectory(String),
    /// A repository and the reasons it is dirty.
    DirtyRepository(String, Vec<String>),
    /// An entry that is neither a file nor a directory, or a directory that
    /// could not be read.
    UnknownEntry(String),
    /// A root argument that names no file or directory.
    NotFound(String),
}

/// A report with its texts as sequences of characters.
pub enum ReportView {
    Header(Seq<char>),
    Separator,
    File(Seq<char>),
    ExcludedDirectory(Seq<char>),
    DirtyRepository(Seq<char>, Seq<Seq<char>>),
    UnknownEntry(Seq<char>),
    NotFound(Seq<char>),
}

impl View for Report {
    type V = ReportView;

    open spec fn view(&self) -> ReportView {
        match self {
            Report::Header(a) => ReportView::Header(a@),
            Report::Separator => ReportView::Separator,
            Report::File(p) => ReportView::File(p@),
            Report::ExcludedDirectory(p) => ReportView::ExcludedDirectory(p@),
            Report::DirtyRepository(p, rs) => ReportView::DirtyRepository(p@, rs.deep_view()),
            Report::UnknownEntry(p) => ReportView::UnknownEntry(p@),
            Report::NotFound(a) => ReportView::NotFound(a@),
        }
    }
}

/// `parts` joined with `, ` between neighbours.
pub open spec fn join_comma(parts: Seq<Seq<char>>) -> Seq<char>
    decreases parts.len(),
{
    if parts.len() == 0 {
        seq![]
    } else if parts.len() == 1 {
        parts[0]
    } else {
        join_comma(parts.drop_last()) + ", "@ + parts.last()
    }
}

/// The line printed for a report; nothing for an excluded directory.
pub open spec fn line_of(r: ReportView) -> Option<Seq<char>> {
    match r {
        ReportView::Header(a) => Some(a + ":"@),
        ReportView::Separator => Some(seq![]),
        ReportView::File(p) => Some(p + " (file)"@),
        ReportView::ExcludedDirectory(_) => None,
        ReportView::DirtyRepository(p, rs) => Some(p + " (git repository: "@ + join_comma(rs) + ")"@),
        ReportView::UnknownEntry(p) => Some("unknown element: "@ + p),
        ReportView::NotFound(a) => Some("no such file or directory: "@ + a),
    }
}

/// The texts of `parts` joined with `, `.
pub fn join_reasons(parts: &Vec<String>) -> (r: String)
    ensures
        r@ == join_comma(parts.deep_view()),
{
    let ghost ps = parts.deep_view();
    let mut out = String::new();
    let mut i: usize = 0;
    assert(ps.take(0) =~= seq![]);
    while i < parts.len()
        invariant
            ps == parts.deep_view(),
            i <= ps.len(),
            out@ == join_comma(ps.take(i as int)),
        decreases ps.len() - i,
    {
        assert(ps.take(i + 1).drop_last() =~= ps.take(i as int));
        if i > 0 {
            out.append(", ");
        }
        out.append(parts[i].as_str());
        proof {
            if i == 0 {
                assert(ps.take(1) =~= seq![ps[0]]);
                assert(out@ =~= ps[0]);
            } else {
                assert(out@ =~= join_comma(ps.take(i as int)) + ", "@ + ps[i as int]);
            }
        }
        i = i + 1;
    }
    assert(ps.take(ps.len() as int) =~= ps);
    out
}

impl Report {
    /// The line this report prints, if any.
    pub fn line(&self) -> (r: Option<String>)
        ensures
            opt_view(r) == line_of(self@),
    {
        match self {
            Report::Header(a) => Some(a.clone().concat(":")),
            Report::Separator => Some(String::new()),
            Report::File(p) => Some(p.clone().concat(" (file)")),
            Report::ExcludedDirectory(_) => None,
            Report::DirtyRepository(p, rs) => {
                let joined = join_reasons(rs);
                let head = p.clone().concat(" (git repository: ");
                Some(head.concat(joined.as_str()).concat(")"))
            },
            Report::UnknownEntry(p) => Some(String::from_str("unknown element: ").concat(p.as_str())),
            Report::NotFound(a) => Some(String::from_str("no such file or directory: ").concat(a.as_str())),
        }
    }
}

} // verus!
