use std::collections::{HashMap, HashSet};

use mess::report::Report;
use mess::walk::{Action, Child, DirId, EntryKind, Event, RepoState, Walker};

struct FakeTree {
    kinds: HashMap<String, EntryKind>,
    children: HashMap<String, Vec<String>>,
    excluded: HashSet<String>,
    repos: HashMap<String, (Option<String>, usize, usize)>,
    unreadable: HashSet<String>,
    ids: HashMap<String, u64>,
}

impl FakeTree {
    fn new() -> FakeTree {
        FakeTree {
            kinds: HashMap::new(),
            children: HashMap::new(),
            excluded: HashSet::new(),
            repos: HashMap::new(),
            unreadable: HashSet::new(),
            ids: HashMap::new(),
        }
    }

    fn dir(&mut self, path: &str, children: &[&str]) {
        self.kinds.insert(path.to_string(), EntryKind::Directory);
        self.children.insert(path.to_string(), children.iter().map(|c| c.to_string()).collect());
        let id = self.ids.len() as u64 + 1;
        self.ids.insert(path.to_string(), id);
    }

    /// A link at `path` to the directory `target`, whose entries it shares.
    fn link(&mut self, path: &str, target: &str) {
        self.kinds.insert(path.to_string(), EntryKind::Directory);
        let id = self.ids[target];
        self.ids.insert(path.to_string(), id);
        let entries: Vec<String> = self.children[target].iter().map(|c| c.replacen(target, path, 1)).collect();
        for (e, orig) in entries.iter().zip(self.children[target].clone()) {
            let k = self.kind(&orig);
            self.kinds.insert(e.clone(), k);
        }
        self.children.insert(path.to_string(), entries);
    }

    fn file(&mut self, path: &str) {
        self.kinds.insert(path.to_string(), EntryKind::File);
    }

    fn kind(&self, path: &str) -> EntryKind {
        *self.kinds.get(path).unwrap_or(&EntryKind::Other)
    }

    fn walk(&self, root: &str, announce: bool, patterns: &[&str]) -> Vec<Report> {
        let patterns: Vec<String> = patterns.iter().map(|p| p.to_string()).collect();
        let mut w = Walker::new(root.to_string(), root.to_string(), self.kind(root), announce, patterns);
        let mut event = Event::Next;
        let mut out = Vec::new();
        loop {
            let action = w.step(event);
            event = Event::Next;
            match action {
                Action::Proceed => {}
                Action::Emit(r) => out.push(r),
                Action::CheckMarkers(p) => {
                    event = Event::Markers {
                        excluded: self.excluded.contains(&p),
                        repository: self.repos.contains_key(&p),
                        identity: self.ids.get(&p).map(|i| DirId { device: 7, inode: *i }),
                    }
                }
                Action::ListChildren(p) => {
                    if self.unreadable.contains(&p) {
                        event = Event::ListFailed;
                    } else {
                        let cs = self.children[&p]
                            .iter()
                            .map(|c| Child { path: c.clone(), kind: self.kind(c) })
                            .collect();
                        event = Event::Children(cs);
                    }
                }
                Action::InspectRepository(p) => {
                    let (branch, changes, stashes) = self.repos[&p].clone();
                    let status = (0..changes).map(|i| format!("f{}", i)).collect();
                    event = Event::Repository(RepoState { branch, status, stash_count: stashes });
                }
                Action::Finished => break,
            }
        }
        out
    }
}

fn sample() -> FakeTree {
    let mut t = FakeTree::new();
    t.dir("w", &["w/a.txt", "w/old", "w/repo", "w/clean", "w/sub", "w/dev"]);
    t.file("w/a.txt");
    t.dir("w/old", &["w/old/inner.txt"]);
    t.file("w/old/inner.txt");
    t.excluded.insert("w/old".to_string());
    t.dir("w/repo", &["w/repo/tracked.rs"]);
    t.file("w/repo/tracked.rs");
    t.repos.insert("w/repo".to_string(), (Some("feature/x".to_string()), 2, 1));
    t.dir("w/clean", &["w/clean/x.rs"]);
    t.repos.insert("w/clean".to_string(), (Some("main".to_string()), 0, 0));
    t.dir("w/sub", &["w/sub/b.txt", "w/sub/build.log", "w/sub/target"]);
    t.file("w/sub/b.txt");
    t.file("w/sub/build.log");
    t.dir("w/sub/target", &["w/sub/target/out.bin"]);
    t.file("w/sub/target/out.bin");
    t
}

fn dirty(path: &str, reasons: &[&str]) -> Report {
    Report::DirtyRepository(path.to_string(), reasons.iter().map(|r| r.to_string()).collect())
}

#[test]
fn walk_reports_in_depth_first_order() {
    let r = sample().walk("w", false, &[".log", "target"]);
    assert_eq!(
        r,
        vec![
            Report::File("w/a.txt".to_string()),
            Report::ExcludedDirectory("w/old".to_string()),
            dirty("w/repo", &["not on default branch", "files added, modified, or removed", "stash is not empty"]),
            Report::File("w/sub/b.txt".to_string()),
            Report::UnknownEntry("w/dev".to_string()),
        ]
    );
}

#[test]
fn excluded_directory_reports_once_and_nothing_beneath() {
    let r = sample().walk("w", false, &[]);
    let n = r.iter().filter(|x| **x == Report::ExcludedDirectory("w/old".to_string())).count();
    assert_eq!(n, 1);
    assert!(r.iter().all(|x| x.line().map_or(true, |l| !l.contains("w/old/"))));
}

#[test]
fn repository_contents_are_never_listed() {
    let r = sample().walk("w", false, &[]);
    assert!(!r.contains(&Report::File("w/repo/tracked.rs".to_string())));
    assert!(r.iter().all(|x| x.line().map_or(true, |l| !l.contains("w/clean"))));
}

#[test]
fn clean_repository_is_silent() {
    let mut t = FakeTree::new();
    t.dir("r", &[]);
    t.repos.insert("r".to_string(), (Some("main".to_string()), 0, 0));
    assert_eq!(t.walk("r", false, &[]), Vec::<Report>::new());
}

#[test]
fn dirty_repository_root_reasons_in_order() {
    let mut t = FakeTree::new();
    t.dir("r", &[]);
    t.repos.insert("r".to_string(), (Some("feature/x".to_string()), 2, 1));
    assert_eq!(
        t.walk("r", false, &[]),
        vec![dirty("r", &["not on default branch", "files added, modified, or removed", "stash is not empty"])]
    );
}

#[test]
fn announced_root_has_header_and_separator() {
    let r = sample().walk("w", true, &[".log", "target"]);
    assert_eq!(r.first(), Some(&Report::Header("w".to_string())));
    assert_eq!(r.last(), Some(&Report::Separator));
    assert_eq!(r.len(), 7);
    let headers = r.iter().filter(|x| matches!(x, Report::Header(_))).count();
    assert_eq!(headers, 1);
}

#[test]
fn unannounced_root_has_no_header_or_separator() {
    let r = sample().walk("w", false, &[]);
    assert!(!r.iter().any(|x| matches!(x, Report::Header(_) | Report::Separator)));
}

#[test]
fn announced_excluded_root_is_still_framed() {
    let mut t = FakeTree::new();
    t.dir("x", &["x/a"]);
    t.file("x/a");
    t.excluded.insert("x".to_string());
    assert_eq!(
        t.walk("x", true, &[]),
        vec![Report::Header("x".to_string()), Report::ExcludedDirectory("x".to_string()), Report::Separator]
    );
}

#[test]
fn ignored_root_directory_is_silent() {
    let r = sample().walk("w", true, &["w"]);
    assert_eq!(r, Vec::<Report>::new());
}

#[test]
fn missing_root_names_the_argument() {
    let t = FakeTree::new();
    let r = t.walk("/no/such/path", true, &[]);
    assert_eq!(r, vec![Report::NotFound("/no/such/path".to_string())]);
    assert_eq!(r[0].line(), Some("no such file or directory: /no/such/path".to_string()));
}

#[test]
fn file_root_is_reported_unless_ignored() {
    let mut t = FakeTree::new();
    t.file("notes.txt");
    assert_eq!(t.walk("notes.txt", true, &[]), vec![Report::File("notes.txt".to_string())]);
    assert_eq!(t.walk("notes.txt", true, &["notes"]), Vec::<Report>::new());
}

#[test]
fn unreadable_directory_is_reported_and_walk_goes_on() {
    let mut t = sample();
    t.unreadable.insert("w/sub".to_string());
    let r = t.walk("w", false, &[]);
    assert!(r.contains(&Report::UnknownEntry("w/sub".to_string())));
    assert_eq!(r.last(), Some(&Report::UnknownEntry("w/dev".to_string())));
}

#[test]
fn walking_twice_gives_identical_reports() {
    let t = sample();
    let a = t.walk("w", true, &[".log"]);
    let b = t.walk("w", true, &[".log"]);
    assert_eq!(a, b);
    let la: Vec<Option<String>> = a.iter().map(|x| x.line()).collect();
    let lb: Vec<Option<String>> = b.iter().map(|x| x.line()).collect();
    assert_eq!(la, lb);
}

#[test]
fn unexpected_event_repeats_the_request() {
    let mut t = FakeTree::new();
    t.dir("d", &[]);
    let mut w = Walker::new("d".to_string(), "d".to_string(), t.kind("d"), false, Vec::new());
    assert_eq!(w.step(Event::Next), Action::CheckMarkers("d".to_string()));
    assert_eq!(w.step(Event::ListFailed), Action::CheckMarkers("d".to_string()));
    assert_eq!(
        w.step(Event::Markers { excluded: false, repository: false, identity: None }),
        Action::ListChildren("d".to_string())
    );
    assert_eq!(w.step(Event::Next), Action::ListChildren("d".to_string()));
    assert_eq!(w.step(Event::Children(Vec::new())), Action::Proceed);
    assert_eq!(w.step(Event::Next), Action::Finished);
    assert_eq!(w.step(Event::Next), Action::Finished);
}

#[test]
fn directory_reached_again_through_a_link_is_skipped() {
    let mut t = FakeTree::new();
    t.dir("top", &["top/a", "top/loop"]);
    t.file("top/a");
    t.link("top/loop", "top");
    let r = t.walk("top", false, &[]);
    assert_eq!(r, vec![Report::File("top/a".to_string())]);
}

#[test]
fn revisited_directory_is_skipped_by_identity() {
    let mut w = Walker::new("d".to_string(), "d".to_string(), EntryKind::Directory, false, Vec::new());
    let id = Some(DirId { device: 1, inode: 42 });
    assert_eq!(w.step(Event::Next), Action::CheckMarkers("d".to_string()));
    assert_eq!(
        w.step(Event::Markers { excluded: false, repository: false, identity: id }),
        Action::ListChildren("d".to_string())
    );
    let cs = vec![Child { path: "d/again".to_string(), kind: EntryKind::Directory }];
    assert_eq!(w.step(Event::Children(cs)), Action::Proceed);
    assert_eq!(w.step(Event::Next), Action::CheckMarkers("d/again".to_string()));
    assert_eq!(w.step(Event::Markers { excluded: false, repository: true, identity: id }), Action::Proceed);
    assert_eq!(w.step(Event::Next), Action::Finished);
}
