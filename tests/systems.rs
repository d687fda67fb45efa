use mq_backuper::error::Error;
use mq_backuper::naming::Timestamp;
use mq_backuper::planner::{BackupRelPath, PlanStep};
use mq_backuper::system::{Console, LocalInstallation, ValidConsolesAndLocalInstallations};
use mq_backuper::tui::new_tui;

fn installation(paths: &[&str]) -> LocalInstallation {
    LocalInstallation {
        name: "Capture".to_string(),
        src: "/home/u/Capture".to_string(),
        dest: "/backups".to_string(),
        backup_rel_paths: paths
            .iter()
            .map(|p| BackupRelPath { excluded_files: None, rel_path: p.to_string(), include_subfolders: true })
            .collect(),
    }
}

fn config_error(r: Result<(), Error>) -> Vec<String> {
    match r {
        Err(Error::ConfigMissingOrInvalid(v)) => v,
        _ => panic!("expected a configuration error"),
    }
}

#[test]
fn validation_checks_root_then_each_path() {
    let inst = installation(&["show", "logs"]);
    assert_eq!(
        inst.checked_paths(),
        vec!["/home/u/Capture".to_string(), "/home/u/Capture/show".to_string(), "/home/u/Capture/logs".to_string()]
    );
    assert!(inst.validate(&vec![true, true, true]).is_ok());
    assert_eq!(
        config_error(inst.validate(&vec![false, true, true])),
        vec!["/home/u/Capture for Capture system does not exist".to_string()]
    );
    assert_eq!(
        config_error(inst.validate(&vec![true, true, false])),
        vec!["/home/u/Capture/logs for Capture does not exist".to_string()]
    );
    assert_eq!(
        config_error(inst.validate(&vec![true, false, false])),
        vec!["/home/u/Capture/show for Capture does not exist".to_string()]
    );
}

#[test]
fn system_without_paths_is_invalid() {
    let inst = installation(&[]);
    assert_eq!(
        config_error(inst.validate(&vec![true])),
        vec!["No backup folders specified for Capture system".to_string()]
    );
}

#[test]
fn backup_job_targets_a_timestamped_archive() {
    let inst = installation(&["show"]);
    let mut tui = new_tui();
    let t = Timestamp { year: 2023, month: 11, day: 30, hour: 8, minute: 0, second: 9 };
    let job = inst.backup_at(&mut tui, &t);
    assert_eq!(job.destination, "/backups/Capture_backup_2023_11_30__08_00_09.zip");
    assert_eq!(job.source, "/home/u/Capture");
    assert_eq!(job.success_message(), "Capture backed up to /backups/Capture_backup_2023_11_30__08_00_09.zip");
    assert_eq!(tui.take_output().len(), 2);
    assert!(matches!(job.planner.next_step(), PlanStep::Resolve { request: 0, .. }));
    assert_eq!(job.rules.len(), 1);
}

#[test]
fn consoles_validate_but_are_not_backed_up() {
    let c = Console {
        name: "My Mq80".to_string(),
        ip: "192.168.0.52".to_string(),
        backup_rel_paths: Vec::new(),
        dest: "/b".to_string(),
        username: "magicQ".to_string(),
        password: "magicQ".to_string(),
    };
    assert!(c.validate());
    assert!(!c.backup());
}

#[test]
fn no_valid_systems_is_empty() {
    let v = ValidConsolesAndLocalInstallations { consoles: Vec::new(), local_installations: Vec::new(), warnings: Vec::new() };
    assert!(v.is_empty());
    let v = ValidConsolesAndLocalInstallations { consoles: Vec::new(), local_installations: vec![installation(&["a"])], warnings: Vec::new() };
    assert!(!v.is_empty());
}

#[test]
fn invalid_installations_become_warnings() {
    let systems = mq_backuper::system::Systems {
        consoles: None,
        local_installations: Some(vec![installation(&["show"]), installation(&[]), installation(&["a", "b"])]),
    };
    let exists = vec![vec![true, true], vec![true], vec![true, true, true]];
    let v = ValidConsolesAndLocalInstallations::from_systems(systems, &exists);
    assert!(v.consoles.is_empty());
    assert_eq!(v.local_installations.len(), 2);
    assert_eq!(v.local_installations[1].backup_rel_paths.len(), 2);
    assert_eq!(v.warnings.len(), 1);
    let w: Vec<Vec<String>> = v.warnings.into_iter().map(|e| e.texts()).collect();
    assert_eq!(w, vec![vec!["No backup folders specified for Capture system".to_string()]]);
}

#[test]
fn consoles_are_all_kept() {
    let c = Console {
        name: "c".to_string(),
        ip: "1".to_string(),
        backup_rel_paths: Vec::new(),
        dest: "/b".to_string(),
        username: "u".to_string(),
        password: "p".to_string(),
    };
    let systems = mq_backuper::system::Systems { consoles: Some(vec![c]), local_installations: None };
    let v = ValidConsolesAndLocalInstallations::from_systems(systems, &Vec::new());
    assert_eq!(v.consoles.len(), 1);
    assert!(!v.is_empty());
}
