use mess::repo::{branch_from_output, dirty_reasons, is_default_branch, same_text, stash_count, status_path, status_paths};
use mess::report::{join_reasons, Report};

fn strs(v: &[&str]) -> Vec<String> {
    v.iter().map(|s| s.to_string()).collect()
}

#[test]
fn default_branch_names() {
    assert!(is_default_branch("main"));
    assert!(is_default_branch("master"));
    assert!(!is_default_branch("feature/x"));
    assert!(!is_default_branch("Main"));
    assert!(!is_default_branch("mainline"));
    assert!(same_text("é", "é"));
    assert!(!same_text("a", "ab"));
}

#[test]
fn branch_output_is_trimmed() {
    assert_eq!(branch_from_output(true, "feature/x\n"), Some("feature/x".to_string()));
    assert_eq!(branch_from_output(true, "  main \r\n"), Some("main".to_string()));
    assert_eq!(branch_from_output(false, "main\n"), None);
}

#[test]
fn detached_head_names_no_branch() {
    assert_eq!(branch_from_output(true, "HEAD\n"), None);
    assert_eq!(branch_from_output(true, "HEADS\n"), Some("HEADS".to_string()));
}

#[test]
fn status_lines_give_paths() {
    assert_eq!(status_path(" M src/lib.rs"), Some("src/lib.rs".to_string()));
    assert_eq!(status_path("?? new file.txt"), Some("new file.txt".to_string()));
    assert_eq!(status_path("M"), None);
    assert_eq!(status_path("MM"), None);
    assert_eq!(status_path("MMx file"), None);
    assert_eq!(status_path(""), None);
}

#[test]
fn status_output_lists_changed_paths() {
    let r = status_paths(true, " M a.txt\n?? b.txt\n\nbroken\nA  c/d.rs\n");
    assert_eq!(r, strs(&["a.txt", "b.txt", "c/d.rs"]));
    assert_eq!(status_paths(true, ""), Vec::<String>::new());
    assert_eq!(status_paths(false, " M a.txt\n"), Vec::<String>::new());
}

#[test]
fn stash_entries_are_counted() {
    assert_eq!(stash_count(true, "stash@{0}: WIP on main\n"), 1);
    assert_eq!(stash_count(true, "stash@{0}: a\n\nstash@{1}: b"), 2);
    assert_eq!(stash_count(true, ""), 0);
    assert_eq!(stash_count(false, "stash@{0}: a\n"), 0);
}

#[test]
fn clean_repository_has_no_reasons() {
    let r = dirty_reasons(&Some("main".to_string()), &Vec::new(), 0);
    assert!(r.is_empty());
    let r = dirty_reasons(&None, &Vec::new(), 0);
    assert!(r.is_empty());
}

#[test]
fn dirty_repository_reasons_in_fixed_order() {
    let status = strs(&["a.txt", "b.txt"]);
    let r = dirty_reasons(&Some("feature/x".to_string()), &status, 1);
    assert_eq!(
        r,
        strs(&["not on default branch", "files added, modified, or removed", "stash is not empty"])
    );
}

#[test]
fn only_fired_checks_give_reasons() {
    let r = dirty_reasons(&Some("master".to_string()), &Vec::new(), 3);
    assert_eq!(r, strs(&["stash is not empty"]));
    let r = dirty_reasons(&None, &strs(&["x"]), 0);
    assert_eq!(r, strs(&["files added, modified, or removed"]));
    let r = dirty_reasons(&Some("dev".to_string()), &Vec::new(), 0);
    assert_eq!(r, strs(&["not on default branch"]));
}

#[test]
fn reasons_are_joined_with_commas() {
    assert_eq!(join_reasons(&Vec::new()), "");
    assert_eq!(join_reasons(&strs(&["a"])), "a");
    assert_eq!(join_reasons(&strs(&["a", "b", "c"])), "a, b, c");
}

#[test]
fn report_lines() {
    assert_eq!(Report::Header("~/work".to_string()).line(), Some("~/work:".to_string()));
    assert_eq!(Report::Separator.line(), Some(String::new()));
    assert_eq!(Report::File("./a.txt".to_string()).line(), Some("./a.txt (file)".to_string()));
    assert_eq!(Report::ExcludedDirectory("./old".to_string()).line(), None);
    assert_eq!(
        Report::DirtyRepository("./r".to_string(), strs(&["not on default branch", "stash is not empty"])).line(),
        Some("./r (git repository: not on default branch, stash is not empty)".to_string())
    );
    assert_eq!(Report::UnknownEntry("./dev".to_string()).line(), Some("unknown element: ./dev".to_string()));
    assert_eq!(
        Report::NotFound("/no/such/path".to_string()).line(),
        Some("no such file or directory: /no/such/path".to_string())
    );
}
