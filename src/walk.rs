//! The traversal engine, as a state machine. The walker decides; its driver
//! performs each requested filesystem or repository query and hands the answer
//! back as the next event.
use vstd::prelude::*;

use crate::ignore::{match_ignore_patterns, matches_any};
use crate::repo::{
    dirty_reasons, off_default_branch, opt_view, reason_changes, reason_not_default, reason_stash,
    reasons_of,
};
use crate::report::{Report, ReportView};

verus! {

/// What a path names on disk.
#[derive(Clone, Copy, Debug, PartialEq, Eq, Structural)]
pub enum EntryKind {
    Directory,
    File,
    /// Neither a file nor a directory (a broken link, a special file), or nothing.
    Other,
}

/// What identifies a directory on disk, whatever path leads to it.
#[derive(Clone, Copy, Debug, PartialEq, Eq, Structural)]
pub struct DirId {
    pub device: u64,
    pub inode: u64,
}

/// A directory entry as the driver found it.
#[derive(Debug)]
pub struct Child {
    pub path: String,
    pub kind: EntryKind,
}

/// The three answers of the version-control tool about one repository.
pub struct RepoState {
    /// The current branch, when the query succeeded.
    pub branch: Option<String>,
    /// The changed paths that the status query listed.
    pub status: Vec<String>,
    /// The number of stash entries.
    pub stash_count: usize,
}

/// What the driver hands the walker.
pub enum Event {
    /// Nothing new: go on.
    Next,
    /// Which markers the directory last asked about holds directly inside
    /// it, and its identity on disk when the driver could tell it.
    Markers { excluded: bool, repository: bool, identity: Option<DirId> },
    /// The entries of the directory last asked about, in the order to visit them.
    Children(Vec<Child>),
    /// The directory last asked about could not be read.
    ListFailed,
    /// The repository last asked about, as the version-control tool saw it.
    Repository(RepoState),
}

/// What the walker asks of its driver.
#[derive(Debug, PartialEq, Eq)]
pub enum Action {
    /// Nothing to do: send the next event.
    Proceed,
    /// Render this report.
    Emit(Report),
    /// Tell whether this directory holds the exclusion marker or repository metadata.
    CheckMarkers(String),
    /// List this directory's entries.
    ListChildren(String),
    /// Query the version-control tool about this repository.
    InspectRepository(String),
    /// The walk is over.
    Finished,
}

enum Task {
    Visit(String, EntryKind, bool),
    Open(String),
    Separator,
    Missing,
}

enum Waiting {
    Idle,
    Markers(String),
    Children(String),
    Repository(String),
}

/// A walk over one root argument.
pub struct Walker {
    patterns: Vec<String>,
    arg: String,
    pending: Vec<Task>,
    waiting: Waiting,
    visited: Vec<DirId>,
}

/// A pending piece of work.
pub enum TaskView {
    /// Visit a path of the given kind, announcing it as a root or not.
    Visit(Seq<char>, EntryKind, bool),
    /// Ask for a directory's markers.
    Open(Seq<char>),
    /// Close an announced root.
    Separator,
    /// Report the root argument as missing.
    Missing,
}

/// The question the walker waits to have answered, about a directory.
pub enum WaitingView {
    Idle,
    Markers(Seq<char>),
    Children(Seq<char>),
    Repository(Seq<char>),
}

/// A walker's state, its texts as sequences of characters.
pub struct WalkerView {
    pub patterns: Seq<Seq<char>>,
    pub arg: Seq<char>,
    /// Work still to do; the last element comes next.
    pub pending: Seq<TaskView>,
    pub waiting: WaitingView,
    /// The directories entered so far.
    pub visited: Seq<DirId>,
}

/// An event, its texts as sequences of characters and its repository
/// answers reduced to the branch and two counts.
pub enum EventView {
    Next,
    Markers { excluded: bool, repository: bool, identity: Option<DirId> },
    Children(Seq<(Seq<char>, EntryKind)>),
    ListFailed,
    Repository(Option<Seq<char>>, nat, nat),
}

/// A request, its texts as sequences of characters.
pub enum ActionView {
    Proceed,
    Emit(ReportView),
    CheckMarkers(Seq<char>),
    ListChildren(Seq<char>),
    InspectRepository(Seq<char>),
    Finished,
}

impl View for Task {
    type V = TaskView;

    closed spec fn view(&self) -> TaskView {
        match self {
            Task::Visit(p, k, a) => TaskView::Visit(p@, *k, *a),
            Task::Open(p) => TaskView::Open(p@),
            Task::Separator => TaskView::Separator,
            Task::Missing => TaskView::Missing,
        }
    }
}

impl View for Waiting {
    type V = WaitingView;

    closed spec fn view(&self) -> WaitingView {
        match self {
            Waiting::Idle => WaitingView::Idle,
            Waiting::Markers(p) => WaitingView::Markers(p@),
            Waiting::Children(p) => WaitingView::Children(p@),
            Waiting::Repository(p) => WaitingView::Repository(p@),
        }
    }
}

impl View for Walker {
    type V = WalkerView;

    closed spec fn view(&self) -> WalkerView {
        WalkerView {
            patterns: self.patterns.deep_view(),
            arg: self.arg@,
            pending: self.pending@.map_values(|t: Task| t@),
            waiting: self.waiting@,
            visited: self.visited@,
        }
    }
}

/// The path and kind of each entry.
pub open spec fn children_view(cs: Seq<Child>) -> Seq<(Seq<char>, EntryKind)> {
    cs.map_values(|c: Child| (c.path@, c.kind))
}

impl View for Event {
    type V = EventView;

    open spec fn view(&self) -> EventView {
        match self {
            Event::Next => EventView::Next,
            Event::Markers { excluded, repository, identity } => EventView::Markers {
                excluded: *excluded,
                repository: *repository,
                identity: *identity,
            },
            Event::Children(cs) => EventView::Children(children_view(cs@)),
            Event::ListFailed => EventView::ListFailed,
            Event::Repository(s) => EventView::Repository(
                opt_view(s.branch),
                s.status@.len(),
                s.stash_count as nat,
            ),
        }
    }
}

impl View for Action {
    type V = ActionView;

    open spec fn view(&self) -> ActionView {
        match self {
            Action::Proceed => ActionView::Proceed,
            Action::Emit(r) => ActionView::Emit(r@),
            Action::CheckMarkers(p) => ActionView::CheckMarkers(p@),
            Action::ListChildren(p) => ActionView::ListChildren(p@),
            Action::InspectRepository(p) => ActionView::InspectRepository(p@),
            Action::Finished => ActionView::Finished,
        }
    }
}

/// The visits of a directory's entries, in the order they are pushed: last
/// entry first, so that the first entry is visited first.
pub open spec fn child_visits(cs: Seq<(Seq<char>, EntryKind)>) -> Seq<TaskView> {
    Seq::new(cs.len(), |i: int| TaskView::Visit(cs[cs.len() - 1 - i].0, cs[cs.len() - 1 - i].1, false))
}

/// The walker with its pending work and what it waits for replaced.
pub open spec fn with(w: WalkerView, pending: Seq<TaskView>, waiting: WaitingView) -> WalkerView {
    WalkerView { pending, waiting, ..w }
}

/// The directory was entered before in this walk.
pub open spec fn seen_before(w: WalkerView, identity: Option<DirId>) -> bool {
    match identity {
        Some(d) => w.visited.contains(d),
        None => false,
    }
}

/// The walker with a newly entered directory recorded.
pub open spec fn remember(w: WalkerView, identity: Option<DirId>) -> WalkerView {
    match identity {
        Some(d) => WalkerView { visited: w.visited.push(d), ..w },
        None => w,
    }
}

/// Take the next pending task.
pub open spec fn next_task(w: WalkerView) -> (WalkerView, ActionView) {
    if w.pending.len() == 0 {
        (w, ActionView::Finished)
    } else {
        let rest = w.pending.drop_last();
        match w.pending.last() {
            TaskView::Visit(p, EntryKind::Directory, announce) => {
                if matches_any(p, w.patterns) {
                    (with(w, rest, WaitingView::Idle), ActionView::Proceed)
                } else if announce {
                    (
                        with(w, rest.push(TaskView::Separator).push(TaskView::Open(p)), WaitingView::Idle),
                        ActionView::Emit(ReportView::Header(w.arg)),
                    )
                } else {
                    (with(w, rest, WaitingView::Markers(p)), ActionView::CheckMarkers(p))
                }
            },
            TaskView::Visit(p, EntryKind::File, _) => {
                if matches_any(p, w.patterns) {
                    (with(w, rest, WaitingView::Idle), ActionView::Proceed)
                } else {
                    (with(w, rest, WaitingView::Idle), ActionView::Emit(ReportView::File(p)))
                }
            },
            TaskView::Visit(p, EntryKind::Other, _) => {
                (with(w, rest, WaitingView::Idle), ActionView::Emit(ReportView::UnknownEntry(p)))
            },
            TaskView::Open(p) => (with(w, rest, WaitingView::Markers(p)), ActionView::CheckMarkers(p)),
            TaskView::Separator => (with(w, rest, WaitingView::Idle), ActionView::Emit(ReportView::Separator)),
            TaskView::Missing => (with(w, rest, WaitingView::Idle), ActionView::Emit(ReportView::NotFound(w.arg))),
        }
    }
}

/// One transition: the walker's next state and its request, given an event.
/// An event that does not answer the question pending is ignored and the
/// question asked again.
pub open spec fn transition(w: WalkerView, e: EventView) -> (WalkerView, ActionView) {
    match w.waiting {
        WaitingView::Idle => next_task(w),
        WaitingView::Markers(p) => match e {
            EventView::Markers { excluded, repository, identity } => {
                if seen_before(w, identity) {
                    (with(w, w.pending, WaitingView::Idle), ActionView::Proceed)
                } else {
                    let w = remember(w, identity);
                    if excluded {
                        (with(w, w.pending, WaitingView::Idle), ActionView::Emit(ReportView::ExcludedDirectory(p)))
                    } else if repository {
                        (with(w, w.pending, WaitingView::Repository(p)), ActionView::InspectRepository(p))
                    } else {
                        (with(w, w.pending, WaitingView::Children(p)), ActionView::ListChildren(p))
                    }
                }
            },
            _ => (w, ActionView::CheckMarkers(p)),
        },
        WaitingView::Children(p) => match e {
            EventView::Children(cs) => (with(w, w.pending + child_visits(cs), WaitingView::Idle), ActionView::Proceed),
            EventView::ListFailed => (with(w, w.pending, WaitingView::Idle), ActionView::Emit(ReportView::UnknownEntry(p))),
            _ => (w, ActionView::ListChildren(p)),
        },
        WaitingView::Repository(p) => match e {
            EventView::Repository(branch, changes, stashes) => {
                let rs = reasons_of(branch, changes as int, stashes as int);
                if rs.len() > 0 {
                    (with(w, w.pending, WaitingView::Idle), ActionView::Emit(ReportView::DirtyRepository(p, rs)))
                } else {
                    (with(w, w.pending, WaitingView::Idle), ActionView::Proceed)
                }
            },
            _ => (w, ActionView::InspectRepository(p)),
        },
    }
}

/// The state a walk over one root starts in.
pub open spec fn initial(patterns: Seq<Seq<char>>, path: Seq<char>, arg: Seq<char>, kind: EntryKind, announce: bool) -> WalkerView {
    WalkerView {
        patterns,
        arg,
        pending: if kind == EntryKind::Other {
            seq![TaskView::Missing]
        } else {
            seq![TaskView::Visit(path, kind, announce)]
        },
        waiting: WaitingView::Idle,
        visited: seq![],
    }
}

impl Walker {
    /// A walk over the root `path`, given on the command line as `arg`, of the
    /// given kind; `announce` asks for a header and a separator around a
    /// directory root's output.
    pub fn new(path: String, arg: String, kind: EntryKind, announce: bool, patterns: Vec<String>) -> (r: Walker)
        ensures
            r@ == initial(patterns.deep_view(), path@, arg@, kind, announce),
    {
        let mut pending: Vec<Task> = Vec::new();
        if kind == EntryKind::Other {
            pending.push(Task::Missing);
        } else {
            pending.push(Task::Visit(path, kind, announce));
        }
        let r = Walker { patterns, arg, pending, waiting: Waiting::Idle, visited: Vec::new() };
        assert(r@.pending =~= initial(patterns.deep_view(), path@, arg@, kind, announce).pending);
        r
    }

    fn take_task(&mut self) -> (r: Action)
        requires
            old(self).waiting@ == WaitingView::Idle,
        ensures
            (final(self)@, r@) == next_task(old(self)@),
    {
        let ghost w = self@;
        match self.pending.pop() {
            None => Action::Finished,
            Some(task) => {
                assert(self@.pending =~= w.pending.drop_last());
                match task {
                    Task::Visit(p, EntryKind::Directory, announce) => {
                        if match_ignore_patterns(p.as_str(), &self.patterns) {
                            Action::Proceed
                        } else if announce {
                            self.pending.push(Task::Separator);
                            self.pending.push(Task::Open(p));
                            assert(self@.pending =~= w.pending.drop_last().push(TaskView::Separator).push(
                                TaskView::Open(p@),
                            ));
                            Action::Emit(Report::Header(self.arg.clone()))
                        } else {
                            let q = p.clone();
                            self.waiting = Waiting::Markers(p);
                            Action::CheckMarkers(q)
                        }
                    },
                    Task::Visit(p, EntryKind::File, _) => {
                        if match_ignore_patterns(p.as_str(), &self.patterns) {
                            Action::Proceed
                        } else {
                            Action::Emit(Report::File(p))
                        }
                    },
                    Task::Visit(p, EntryKind::Other, _) => Action::Emit(Report::UnknownEntry(p)),
                    Task::Open(p) => {
                        let q = p.clone();
                        self.waiting = Waiting::Markers(p);
                        Action::CheckMarkers(q)
                    },
                    Task::Separator => Action::Emit(Report::Separator),
                    Task::Missing => Action::Emit(Report::NotFound(self.arg.clone())),
                }
            },
        }
    }

    /// Push the visits of a directory's entries, the first entry on top.
    fn push_children(&mut self, children: Vec<Child>)
        ensures
            final(self)@ == with(old(self)@, old(self)@.pending + child_visits(children_view(children@)), old(self)@.waiting),
    {
        let ghost w = self@;
        let ghost cs = children_view(children@);
        let mut children = children;
        let ghost n = cs.len();
        while children.len() > 0
            invariant
                cs.len() == n,
                children@.len() <= n,
                children_view(children@) == cs.take(children@.len() as int),
                self@ == with(w, w.pending + child_visits(cs).take(n - children@.len()), w.waiting),
            decreases children@.len(),
        {
            let ghost k = children@.len();
            let ghost before = children@;
            let ghost pend = self@.pending;
            let c = children.pop().unwrap();
            assert(children_view(children@) =~= cs.take(children@.len() as int));
            assert(c == before[k - 1]);
            assert(children_view(before)[k - 1] == cs.take(k as int)[k - 1]);
            assert(cs[k - 1] == (c.path@, c.kind));
            let ghost t = TaskView::Visit(c.path@, c.kind, false);
            self.pending.push(Task::Visit(c.path, c.kind, false));
            assert(self@.pending =~= pend.push(t));
            assert(child_visits(cs)[n - k] == t);
            assert(child_visits(cs).take(n - k + 1) =~= child_visits(cs).take(n - k).push(t));
            assert(self@.pending =~= w.pending + child_visits(cs).take(n - children@.len()));
            assert(self@ =~= with(w, w.pending + child_visits(cs).take(n - children@.len()), w.waiting));
        }
        assert(child_visits(cs).take(n as int) =~= child_visits(cs));
    }

    fn seen(&self, identity: Option<DirId>) -> (r: bool)
        ensures
            r == seen_before(self@, identity),
    {
        match identity {
            None => false,
            Some(d) => {
                let mut i: usize = 0;
                while i < self.visited.len()
                    invariant
                        identity == Some(d),
                        i <= self.visited@.len(),
                        forall|t: int| 0 <= t < i ==> self.visited@[t] != d,
                    decreases self.visited@.len() - i,
                {
                    if self.visited[i] == d {
                        assert(self@.visited == self.visited@);
                        assert(self@.visited[i as int] == d);
                        return true;
                    }
                    i = i + 1;
                }
                assert(self@.visited == self.visited@);
                false
            },
        }
    }

    /// Take one event and answer with the next request.
    pub fn step(&mut self, event: Event) -> (r: Action)
        ensures
            (final(self)@, r@) == transition(old(self)@, event@),
    {
        let p = match &self.waiting {
            Waiting::Idle => {
                return self.take_task();
            },
            Waiting::Markers(p) => p.clone(),
            Waiting::Children(p) => p.clone(),
            Waiting::Repository(p) => p.clone(),
        };
        match (&self.waiting, event) {
            (Waiting::Markers(_), Event::Markers { excluded, repository, identity }) => {
                if self.seen(identity) {
                    self.waiting = Waiting::Idle;
                    return Action::Proceed;
                }
                match identity {
                    Some(d) => self.visited.push(d),
                    None => {},
                }
                if excluded {
                    self.waiting = Waiting::Idle;
                    Action::Emit(Report::ExcludedDirectory(p))
                } else if repository {
                    self.waiting = Waiting::Repository(p.clone());
                    Action::InspectRepository(p)
                } else {
                    self.waiting = Waiting::Children(p.clone());
                    Action::ListChildren(p)
                }
            },
            (Waiting::Markers(_), _) => Action::CheckMarkers(p),
            (Waiting::Children(_), Event::Children(cs)) => {
                self.waiting = Waiting::Idle;
                self.push_children(cs);
                Action::Proceed
            },
            (Waiting::Children(_), Event::ListFailed) => {
                self.waiting = Waiting::Idle;
                Action::Emit(Report::UnknownEntry(p))
            },
            (Waiting::Children(_), _) => Action::ListChildren(p),
            (Waiting::Repository(_), Event::Repository(s)) => {
                self.waiting = Waiting::Idle;
                let rs = dirty_reasons(&s.branch, &s.status, s.stash_count);
                if rs.len() > 0 {
                    Action::Emit(Report::DirtyRepository(p, rs))
                } else {
                    Action::Proceed
                }
            },
            (Waiting::Repository(_), _) => Action::InspectRepository(p),
            (Waiting::Idle, _) => Action::Proceed,
        }
    }
}

/// The requests a walker makes when fed `events` one after another.
pub open spec fn run(w: WalkerView, events: Seq<EventView>) -> Seq<ActionView>
    decreases events.len(),
{
    if events.len() == 0 {
        seq![]
    } else {
        let (next, a) = transition(w, events[0]);
        seq![a] + run(next, events.subrange(1, events.len() as int))
    }
}

/// A directory reached below a root and not ignored is asked about its
/// markers; when it holds the exclusion marker, and was not entered before,
/// the walker emits exactly one excluded-directory report for it and is left
/// with the work it had before the directory, so nothing beneath it is ever
/// visited.
pub proof fn excluded_directory_is_terminal(
    w: WalkerView,
    p: Seq<char>,
    e: EventView,
    repository: bool,
    identity: Option<DirId>,
)
    requires
        w.waiting == WaitingView::Idle,
        w.pending.len() > 0,
        w.pending.last() == TaskView::Visit(p, EntryKind::Directory, false),
        !matches_any(p, w.patterns),
        !seen_before(w, identity),
    ensures
        transition(w, e).1 == ActionView::CheckMarkers(p),
        ({
            let (w2, a2) = transition(transition(w, e).0, EventView::Markers { excluded: true, repository, identity });
            &&& a2 == ActionView::Emit(ReportView::ExcludedDirectory(p))
            &&& w2.pending == w.pending.drop_last()
            &&& w2.waiting == WaitingView::Idle
        }),
{
}

/// A directory with repository metadata, not entered before, is never
/// listed: the walker asks for the repository's state, keeps its pending work
/// unchanged, and emits at most one report, a dirty-repository report whose
/// reasons are those of the checks that fired, in the order branch, status,
/// stash; a clean repository emits nothing.
pub proof fn repository_is_not_descended(
    w: WalkerView,
    p: Seq<char>,
    identity: Option<DirId>,
    branch: Option<Seq<char>>,
    changes: nat,
    stashes: nat,
)
    requires
        w.waiting == WaitingView::Markers(p),
        !seen_before(w, identity),
    ensures
        ({
            let (w1, a1) = transition(w, EventView::Markers { excluded: false, repository: true, identity });
            let (w2, a2) = transition(w1, EventView::Repository(branch, changes, stashes));
            let rs = reasons_of(branch, changes as int, stashes as int);
            &&& a1 == ActionView::InspectRepository(p)
            &&& w1.pending == w.pending
            &&& forall|e: EventView| !(e is Repository) ==> #[trigger] transition(w1, e) == (w1, a1)
            &&& w2.pending == w.pending
            &&& w2.waiting == WaitingView::Idle
            &&& rs.len() > 0 ==> a2 == ActionView::Emit(ReportView::DirtyRepository(p, rs))
            &&& rs.len() == 0 ==> a2 == ActionView::Proceed
            &&& rs == (if off_default_branch(branch) { seq![reason_not_default()] } else { seq![] })
                + (if changes > 0 { seq![reason_changes()] } else { seq![] })
                + (if stashes > 0 { seq![reason_stash()] } else { seq![] })
        }),
{
}

/// A directory reached a second time in the same walk (through a link) is
/// skipped without a report, and nothing beneath it is visited again.
pub proof fn revisited_directory_is_skipped(
    w: WalkerView,
    p: Seq<char>,
    excluded: bool,
    repository: bool,
    d: DirId,
)
    requires
        w.waiting == WaitingView::Markers(p),
        w.visited.contains(d),
    ensures
        transition(w, EventView::Markers { excluded, repository, identity: Some(d) }) == (
            with(w, w.pending, WaitingView::Idle),
            ActionView::Proceed,
        ),
{
}

/// Directories once entered stay recorded for the rest of the walk.
pub proof fn visited_only_grows(w: WalkerView, e: EventView, d: DirId)
    requires
        w.visited.contains(d),
    ensures
        transition(w, e).0.visited.contains(d),
{
    let w1 = transition(w, e).0;
    let i = choose|i: int| 0 <= i < w.visited.len() && w.visited[i] == d;
    assert(w1.visited[i] == d);
}

/// Every pending visit is a child visit, which announces nothing.
pub open spec fn no_announced_visit(w: WalkerView) -> bool {
    forall|i: int| 0 <= i < w.pending.len() ==> !(#[trigger] w.pending[i] matches TaskView::Visit(_, _, true))
}

/// Without an announced root, no header is ever emitted, whatever the events.
pub proof fn unannounced_walk_has_no_header(w: WalkerView, e: EventView)
    requires
        no_announced_visit(w),
    ensures
        !(transition(w, e).1 matches ActionView::Emit(ReportView::Header(_))),
        no_announced_visit(transition(w, e).0),
{
    let w2 = transition(w, e).0;
    if w.waiting == WaitingView::Idle && w.pending.len() > 0 {
        assert(w.pending.last() == w.pending[w.pending.len() - 1]);
        assert forall|i: int| 0 <= i < w2.pending.len() implies !(#[trigger] w2.pending[i] matches TaskView::Visit(_, _, true)) by {
            assert(w2.pending[i] == w.pending[i]);
        }
    } else if let (WaitingView::Children(_), EventView::Children(cs)) = (w.waiting, e) {
        assert forall|i: int| 0 <= i < w2.pending.len() implies !(#[trigger] w2.pending[i] matches TaskView::Visit(_, _, true)) by {
            if i >= w.pending.len() {
                assert(w2.pending[i] == child_visits(cs)[i - w.pending.len()]);
            }
        }
    }
}

/// A root walked without announcement starts with no announced visit, so
/// (by the law above) its walk never emits a header.
pub proof fn unannounced_root_starts_unannounced(
    patterns: Seq<Seq<char>>,
    path: Seq<char>,
    arg: Seq<char>,
    kind: EntryKind,
)
    ensures
        no_announced_visit(initial(patterns, path, arg, kind, false)),
{
}

/// A walk over a root directory that is announced and not ignored opens with
/// a header carrying the argument as given, and leaves a separator at the
/// bottom of its pending work, under everything the directory adds.
pub proof fn announced_root_opens_with_header(
    patterns: Seq<Seq<char>>,
    path: Seq<char>,
    arg: Seq<char>,
    e: EventView,
)
    requires
        !matches_any(path, patterns),
    ensures
        ({
            let (w1, a1) = transition(initial(patterns, path, arg, EntryKind::Directory, true), e);
            &&& a1 == ActionView::Emit(ReportView::Header(arg))
            &&& w1.pending == seq![TaskView::Separator, TaskView::Open(path)]
            &&& no_announced_visit(w1)
        }),
{
    let w0 = initial(patterns, path, arg, EntryKind::Directory, true);
    assert(w0.pending.drop_last() =~= seq![]);
    let w1 = transition(w0, e).0;
    assert(w1.pending =~= seq![TaskView::Separator, TaskView::Open(path)]);
}

/// The separator at the bottom of the pending work stays there until it is
/// the only work left, and it is then the next report: so it is the last
/// report of the root.
pub proof fn separator_closes_the_root(w: WalkerView, e: EventView)
    requires
        w.pending.len() > 0,
        w.pending[0] == TaskView::Separator,
    ensures
        ({
            let (w1, a1) = transition(w, e);
            if w.pending.len() == 1 && w.waiting == WaitingView::Idle {
                a1 == ActionView::Emit(ReportView::Separator) && w1.pending.len() == 0
            } else {
                w1.pending.len() > 0 && w1.pending[0] == TaskView::Separator
            }
        }),
{
    let w1 = transition(w, e).0;
    if w.waiting == WaitingView::Idle && w.pending.len() > 1 {
        assert(w.pending.drop_last()[0] == TaskView::Separator);
    }
}

/// A root argument that names nothing yields exactly one report, which names
/// the argument as it was given, and the walk then ends.
pub proof fn missing_root_reports_argument(
    patterns: Seq<Seq<char>>,
    path: Seq<char>,
    arg: Seq<char>,
    announce: bool,
    e1: EventView,
    e2: EventView,
)
    ensures
        ({
            let (w1, a1) = transition(initial(patterns, path, arg, EntryKind::Other, announce), e1);
            &&& a1 == ActionView::Emit(ReportView::NotFound(arg))
            &&& transition(w1, e2).1 == ActionView::Finished
        }),
{
    let w0 = initial(patterns, path, arg, EntryKind::Other, announce);
    assert(w0.pending.drop_last() =~= seq![]);
}

/// The requests, and so the reports, depend on nothing but the walker's
/// starting state and the answers it was given: walking an unchanged tree twice
/// yields the same report sequence.
pub proof fn walk_is_deterministic(w1: WalkerView, w2: WalkerView, events: Seq<EventView>)
    requires
        w1 == w2,
    ensures
        run(w1, events) == run(w2, events),
{
}

} // verus!
