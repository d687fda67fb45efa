use std::io::{Read, Write};

use mq_backuper::archive::{check_destination, has_archive_suffix, plan_member, rules_for_requests, ArchiveAction, DestinationFacts};
use mq_backuper::error::Error;
use mq_backuper::planner::{BackupRelPath, DirChild, PathKind, PlanStep, Planner};

fn facts(dest_exists: bool, source_exists: bool, has_parent: bool) -> DestinationFacts {
    DestinationFacts { dest_exists, source_exists, has_parent }
}

#[test]
fn existing_destination_is_a_conflict() {
    let r = check_destination("/backups/x.zip", "/src", &facts(true, true, true));
    match r {
        Err(Error::DestinationConflict(m)) => assert_eq!(m, "/backups/x.zip already exists!"),
        _ => panic!("expected a destination conflict"),
    }
}

#[test]
fn destination_must_be_a_zip() {
    let r = check_destination("/backups/x.tar", "/src", &facts(false, true, true));
    match r {
        Err(Error::DestinationConflict(m)) => assert_eq!(m, "/backups/x.tar is not a zip file!"),
        _ => panic!("expected a destination conflict"),
    }
    assert!(has_archive_suffix("a.zip"));
    assert!(!has_archive_suffix("a.ZIP"));
    assert!(!has_archive_suffix("zip"));
}

#[test]
fn missing_source_root_is_reported() {
    let r = check_destination("/backups/x.zip", "/src", &facts(false, false, true));
    match r {
        Err(Error::SourceMissing(m)) => assert_eq!(m, "/src does not exist"),
        _ => panic!("expected a missing source"),
    }
}

#[test]
fn destination_without_parent_is_invalid() {
    let r = check_destination("x.zip", "/src", &facts(false, true, false));
    match r {
        Err(Error::DestinationConflict(m)) => assert_eq!(m, "x.zip is an invalid path"),
        _ => panic!("expected an invalid path"),
    }
    assert!(check_destination("/b/x.zip", "/src", &facts(false, true, true)).is_ok());
}

/// Feeds a small tree through the planner and the member decisions into an
/// archive in memory, then reads every member back.
#[test]
fn written_members_read_back_with_their_bytes() {
    let contents: Vec<(&str, &[u8])> = vec![
        ("show/a.all", b"alpha"),
        ("show/heads.all", b"heads"),
        ("show/logs/x.log", b"log line\n"),
    ];
    let requests = vec![BackupRelPath {
        excluded_files: Some(vec!["heads.all".to_string()]),
        rel_path: "show".to_string(),
        include_subfolders: true,
    }];
    let rules = rules_for_requests(&requests);
    let mut planner = Planner::new(&requests);
    let mut writer = zip::ZipWriter::new(std::io::Cursor::new(Vec::new()));
    let options = zip::write::FileOptions::default().compression_method(zip::CompressionMethod::Deflated);
    loop {
        let entries = match planner.next_step() {
            PlanStep::Resolve { .. } => planner.resolved(PathKind::Dir).ok().unwrap(),
            PlanStep::List { dir, .. } => {
                let kids = if dir.join("/") == "show" {
                    vec![
                        DirChild { name: "a.all".to_string(), is_file: true },
                        DirChild { name: "heads.all".to_string(), is_file: true },
                        DirChild { name: "logs".to_string(), is_file: false },
                    ]
                } else {
                    vec![DirChild { name: "x.log".to_string(), is_file: true }]
                };
                planner.listed(&kids)
            }
            PlanStep::Done => break,
        };
        for e in entries.iter() {
            let key = e.rel.join("/");
            match plan_member(e, &rules) {
                ArchiveAction::AddFile(name) => {
                    let bytes = contents.iter().find(|(p, _)| *p == key).unwrap().1;
                    writer.start_file(name, options).unwrap();
                    writer.write_all(bytes).unwrap();
                }
                ArchiveAction::AddDir(name) => writer.add_directory(name, options).unwrap(),
                ArchiveAction::Skip(_) => {}
            }
        }
    }
    let bytes = writer.finish().unwrap().into_inner();
    let mut archive = zip::ZipArchive::new(std::io::Cursor::new(bytes)).unwrap();
    for (name, want) in [("show/a.all", &b"alpha"[..]), ("show/logs/x.log", &b"log line\n"[..])] {
        let mut got = Vec::new();
        archive.by_name(name).unwrap().read_to_end(&mut got).unwrap();
        assert_eq!(got, want);
    }
    assert!(archive.by_name("show/logs/").is_ok());
    assert!(archive.by_name("show/heads.all").is_err());
    assert_eq!(archive.len(), 3);
}
