use mq_backuper::archive::{plan_member, rules_for_requests, ArchiveAction};
use mq_backuper::error::Error;
use mq_backuper::path::member_name;
use mq_backuper::planner::{BackupRelPath, DirChild, PathKind, PlanStep, Planner, TraversalEntry};

/// A directory tree below a source root: every path with whether it is a
/// file, in the order a listing gives them.
type Tree = Vec<(&'static str, bool)>;

fn parent_and_name(path: &str) -> (String, String) {
    match path.rfind('/') {
        Some(i) => (path[..i].to_string(), path[i + 1..].to_string()),
        None => (String::new(), path.to_string()),
    }
}

fn kind_of(tree: &Tree, rel: &[String]) -> PathKind {
    let p = rel.join("/");
    if p.is_empty() {
        return PathKind::Dir;
    }
    match tree.iter().find(|(q, _)| *q == p) {
        Some((_, true)) => PathKind::File,
        Some((_, false)) => PathKind::Dir,
        None => PathKind::Missing,
    }
}

fn children_of(tree: &Tree, dir: &[String]) -> Vec<DirChild> {
    let d = dir.join("/");
    tree.iter()
        .filter(|(p, _)| parent_and_name(p).0 == d)
        .map(|(p, f)| DirChild { name: parent_and_name(p).1, is_file: *f })
        .collect()
}

fn walk(requests: &Vec<BackupRelPath>, tree: &Tree) -> Result<Vec<TraversalEntry>, Error> {
    let mut planner = Planner::new(requests);
    let mut out = Vec::new();
    loop {
        match planner.next_step() {
            PlanStep::Resolve { rel, .. } => {
                let kind = kind_of(tree, &rel);
                out.extend(planner.resolved(kind)?);
            }
            PlanStep::List { dir, .. } => {
                let kids = children_of(tree, &dir);
                out.extend(planner.listed(&kids));
            }
            PlanStep::Done => return Ok(out),
        }
    }
}

fn request(rel: &str, include_subfolders: bool, excluded: Option<Vec<&str>>) -> BackupRelPath {
    BackupRelPath {
        excluded_files: excluded.map(|v| v.into_iter().map(|s| s.to_string()).collect()),
        rel_path: rel.to_string(),
        include_subfolders,
    }
}

fn names(entries: &[TraversalEntry]) -> Vec<(String, bool)> {
    entries.iter().map(|e| (e.rel.join("/"), e.is_file)).collect()
}

fn small_tree() -> Tree {
    vec![("a.txt", true), ("sub", false), ("sub/b.txt", true)]
}

#[test]
fn root_without_subfolders_lists_files_only() {
    let entries = walk(&vec![request("", false, None)], &small_tree()).ok().unwrap();
    assert_eq!(names(&entries), vec![("a.txt".to_string(), true)]);
}

#[test]
fn root_with_subfolders_records_directories_and_their_files() {
    let entries = walk(&vec![request("", true, None)], &small_tree()).ok().unwrap();
    assert_eq!(
        names(&entries),
        vec![
            ("a.txt".to_string(), true),
            ("sub".to_string(), false),
            ("sub/b.txt".to_string(), true),
        ]
    );
}

#[test]
fn directory_entries_never_have_empty_paths() {
    let tree: Tree = vec![("x", false), ("x/y", false), ("x/y/z.txt", true), ("w.txt", true)];
    let entries = walk(&vec![request("", true, None), request("x", true, None)], &tree).ok().unwrap();
    assert_eq!(entries.len(), 6);
    assert!(entries.iter().all(|e| !e.rel.is_empty()));
}

#[test]
fn single_file_request_gives_one_entry_either_way() {
    let tree: Tree = vec![("show", false), ("show/icons", false), ("show/icons/a.mc2", true)];
    for recurse in [false, true] {
        let entries = walk(&vec![request("show\\icons\\a.mc2", recurse, None)], &tree).ok().unwrap();
        assert_eq!(names(&entries), vec![("show/icons/a.mc2".to_string(), true)]);
        assert_eq!(entries[0].request, 0);
    }
}

#[test]
fn missing_request_path_fails_the_plan() {
    let r = walk(&vec![request("nothere", true, None)], &small_tree());
    match r {
        Err(Error::SourceMissing(m)) => assert_eq!(m, "nothere does not exist"),
        _ => panic!("expected a missing source"),
    }
}

#[test]
fn requests_are_walked_in_order_with_their_index() {
    let tree: Tree = vec![("a", false), ("a/1.txt", true), ("b", false), ("b/2.txt", true)];
    let entries = walk(&vec![request("b", false, None), request("a", false, None)], &tree).ok().unwrap();
    assert_eq!(names(&entries), vec![("b/2.txt".to_string(), true), ("a/1.txt".to_string(), true)]);
    assert_eq!(entries[0].request, 0);
    assert_eq!(entries[1].request, 1);
}

#[test]
fn deeper_directories_are_entered_last_pushed_first() {
    let tree: Tree = vec![("d1", false), ("d2", false), ("d1/f1", true), ("d2/f2", true)];
    let entries = walk(&vec![request("", true, None)], &tree).ok().unwrap();
    assert_eq!(
        names(&entries),
        vec![
            ("d1".to_string(), false),
            ("d2".to_string(), false),
            ("d2/f2".to_string(), true),
            ("d1/f1".to_string(), true),
        ]
    );
}

#[test]
fn show_folder_backup_excludes_heads_file() {
    let tree: Tree = vec![
        ("show", false),
        ("show/a.all", true),
        ("show/heads.all", true),
        ("show/logs", false),
        ("show/logs/x.log", true),
    ];
    let requests = vec![request("show", true, Some(vec!["heads.all"]))];
    let entries = walk(&requests, &tree).ok().unwrap();
    let rules = rules_for_requests(&requests);
    let mut added = Vec::new();
    let mut skipped = Vec::new();
    for e in entries.iter() {
        match plan_member(e, &rules) {
            ArchiveAction::AddFile(n) => added.push(n),
            ArchiveAction::AddDir(n) => added.push(n),
            ArchiveAction::Skip(n) => skipped.push(n),
        }
    }
    assert_eq!(
        added,
        vec!["show/a.all".to_string(), "show/logs/".to_string(), "show/logs/x.log".to_string()]
    );
    assert_eq!(skipped, vec!["show/heads.all".to_string()]);
}

#[test]
fn exclusions_apply_per_request() {
    let tree: Tree = vec![("a", false), ("a/x.all", true), ("b", false), ("b/x.all", true)];
    let requests = vec![request("a", false, Some(vec!["*.all"])), request("b", false, None)];
    let entries = walk(&requests, &tree).ok().unwrap();
    let rules = rules_for_requests(&requests);
    assert!(matches!(plan_member(&entries[0], &rules), ArchiveAction::Skip(n) if n == "a/x.all"));
    assert!(matches!(plan_member(&entries[1], &rules), ArchiveAction::AddFile(n) if n == "b/x.all"));
}

#[test]
fn action_tasks_describe_the_work() {
    assert_eq!(ArchiveAction::AddFile("a/b".to_string()).task(), "Zipping a/b");
    assert_eq!(ArchiveAction::Skip("a/b".to_string()).task(), "Skipping a/b");
    assert_eq!(ArchiveAction::AddDir("a/".to_string()).task(), "Adding path a/ to zip");
    assert_eq!(mq_backuper::archive::finished_task(), "All entries zipped...");
}

#[test]
fn first_step_resolves_first_request() {
    let planner = Planner::new(&vec![request("show\\audio", false, None)]);
    match planner.next_step() {
        PlanStep::Resolve { request, rel } => {
            assert_eq!(request, 0);
            assert_eq!(member_name(&rel, false), "show/audio");
        }
        _ => panic!("expected a resolve step"),
    }
    let empty = Planner::new(&Vec::new());
    assert!(matches!(empty.next_step(), PlanStep::Done));
}
