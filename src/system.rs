use vstd::prelude::*;

use crate::archive::{request_rules_ok, rules_for_requests};
use crate::error::{joined, views, Error};
use crate::matcher::ExclusionRule;
use crate::naming::{archive_name_of, join_dir, join_path, local_now, zip_path_at, Timestamp};
use crate::path::components_of;
use crate::planner::{BackupRelPath, Planner};
use crate::tui::{banner_text, clear_out, text_out, upper_of, Style, TUI};

verus! {

broadcast use vstd::string::group_string_axioms;

/// Software installed on a reachable filesystem whose files are backed up.
pub struct LocalInstallation {
    /// The name shown to the user and used in archive names.
    pub name: String,
    /// The source root.
    pub src: String,
    /// The directory the archives go to.
    pub dest: String,
    /// The paths below the source root to back up.
    pub backup_rel_paths: Vec<BackupRelPath>,
}

/// A lighting console on the network.
pub struct Console {
    pub name: String,
    pub ip: String,
    pub backup_rel_paths: Vec<BackupRelPath>,
    pub dest: String,
    pub username: String,
    pub password: String,
}

impl Console {
    /// A console has nothing on this machine to check.
    pub fn validate(&self) -> (r: bool)
        ensures
            r,
    {
        true
    }

    /// Consoles are not backed up over the network: always false.
    pub fn backup(&self) -> (r: bool)
        ensures
            !r,
    {
        false
    }
}

/// The systems a configuration names.
pub struct Systems {
    pub consoles: Option<Vec<Console>>,
    pub local_installations: Option<Vec<LocalInstallation>>,
}

/// The systems that passed validation, and a warning for each that did not.
pub struct ValidConsolesAndLocalInstallations {
    pub consoles: Vec<Console>,
    pub local_installations: Vec<LocalInstallation>,
    pub warnings: Vec<Error>,
}

impl ValidConsolesAndLocalInstallations {
    /// No system is left to back up.
    pub fn is_empty(&self) -> (r: bool)
        ensures
            r == (self.consoles.len() == 0 && self.local_installations.len() == 0),
    {
        self.consoles.len() == 0 && self.local_installations.len() == 0
    }
}

/// The installations among `insts` that pass validation, in order;
/// `exists[i]` says which of the `i`-th one's checked paths exist.
pub open spec fn kept(insts: Seq<LocalInstallation>, exists: Seq<Seq<bool>>) -> Seq<LocalInstallation>
    decreases insts.len(),
{
    if insts.len() == 0 {
        seq![]
    } else {
        let k = insts.len() - 1;
        let prev = kept(insts.drop_last(), exists.subrange(0, k));
        if validation_error(insts[k], exists[k]) is None {
            prev.push(insts[k])
        } else {
            prev
        }
    }
}

/// The warning lines of the installations among `insts` that fail
/// validation, in order.
pub open spec fn warned(insts: Seq<LocalInstallation>, exists: Seq<Seq<bool>>) -> Seq<Seq<char>>
    decreases insts.len(),
{
    if insts.len() == 0 {
        seq![]
    } else {
        let k = insts.len() - 1;
        let prev = warned(insts.drop_last(), exists.subrange(0, k));
        match validation_error(insts[k], exists[k]) {
            Some(m) => prev.push(m),
            None => prev,
        }
    }
}

/// The existence facts fit the installations: one list per installation,
/// with its source root and each of its paths.
pub open spec fn facts_fit(insts: Seq<LocalInstallation>, exists: Seq<Vec<bool>>) -> bool {
    &&& exists.len() == insts.len()
    &&& forall|i: int|
        0 <= i < insts.len() ==> #[trigger] exists[i].len() == insts[i].backup_rel_paths.len()
            + 1
}

/// The views of a list of existence facts.
pub open spec fn fact_views(exists: Seq<Vec<bool>>) -> Seq<Seq<bool>> {
    exists.map_values(|v: Vec<bool>| v@)
}

/// The first line of each warning.
pub open spec fn first_lines(ws: Seq<Error>) -> Seq<Seq<char>> {
    ws.map_values(|e: Error| e.texts_of()[0])
}

impl ValidConsolesAndLocalInstallations {
    /// Sorts the systems of a configuration: every console is kept, and an
    /// installation is kept when it validates, or gives a one-line warning
    /// otherwise. `exists[i]` says which of the `i`-th installation's
    /// `checked_paths` exist.
    pub fn from_systems(systems: Systems, exists: &Vec<Vec<bool>>) -> (r: Self)
        requires
            facts_fit(
                match systems.local_installations {
                    Some(v) => v@,
                    None => seq![],
                },
                exists@,
            ),
        ensures
            r.consoles@ == match systems.consoles {
                Some(v) => v@,
                None => seq![],
            },
            r.local_installations@ == kept(
                match systems.local_installations {
                    Some(v) => v@,
                    None => seq![],
                },
                fact_views(exists@),
            ),
            first_lines(r.warnings@) == warned(
                match systems.local_installations {
                    Some(v) => v@,
                    None => seq![],
                },
                fact_views(exists@),
            ),
            forall|i: int|
                0 <= i < r.warnings.len() ==> (#[trigger] r.warnings@[i]) is ConfigMissingOrInvalid
                    && r.warnings@[i].texts_of().len() == 1,
    {
        let consoles = match systems.consoles {
            Some(v) => v,
            None => Vec::new(),
        };
        let mut rest = match systems.local_installations {
            Some(v) => v,
            None => Vec::new(),
        };
        let ghost all = rest@;
        assert(all.len() == rest.len());
        let ghost facts = fact_views(exists@);
        let mut local_installations: Vec<LocalInstallation> = Vec::new();
        let mut warnings: Vec<Error> = Vec::new();
        let mut i: usize = 0;
        while rest.len() > 0
            invariant
                facts_fit(all, exists@),
                all.len() <= usize::MAX,
                facts == fact_views(exists@),
                i + rest.len() == all.len(),
                rest@ == all.subrange(i as int, all.len() as int),
                local_installations@ == kept(all.subrange(0, i as int), facts.subrange(0, i as int)),
                first_lines(warnings@) == warned(all.subrange(0, i as int), facts.subrange(0, i as int)),
                forall|k: int|
                    0 <= k < warnings.len() ==> (#[trigger] warnings@[k]) is ConfigMissingOrInvalid
                        && warnings@[k].texts_of().len() == 1,
            decreases rest.len(),
        {
            let inst = rest.remove(0);
            assert(inst == all[i as int]);
            let ghost pre = all.subrange(0, i + 1);
            assert(pre.drop_last() =~= all.subrange(0, i as int));
            assert(facts.subrange(0, i + 1).subrange(0, i as int) =~= facts.subrange(0, i as int));
            assert(facts[i as int] == exists@[i as int]@);
            assert(pre.last() == inst);
            assert(facts.subrange(0, i + 1)[i as int] == exists@[i as int]@);
            match inst.validate(&exists[i]) {
                Ok(()) => {
                    local_installations.push(inst);
                },
                Err(e) => {
                    let ghost before = warnings@;
                    warnings.push(e);
                    assert(first_lines(warnings@) =~= first_lines(before).push(e.texts_of()[0]));
                },
            }
            assert(rest@ =~= all.subrange(i + 1, all.len() as int));
            i = i + 1;
        }
        assert(all.subrange(0, i as int) =~= all);
        assert(facts.subrange(0, i as int) =~= facts);
        ValidConsolesAndLocalInstallations { consoles, local_installations, warnings }
    }
}

/// The message for a missing source root.
pub open spec fn missing_source_text(src: Seq<char>, name: Seq<char>) -> Seq<char> {
    src + " for "@ + name + " system does not exist"@
}

/// The message for a system without paths.
pub open spec fn no_paths_text(name: Seq<char>) -> Seq<char> {
    "No backup folders specified for "@ + name + " system"@
}

/// The message for a missing path below the source root.
pub open spec fn missing_path_text(path: Seq<char>, name: Seq<char>) -> Seq<char> {
    path + " for "@ + name + " does not exist"@
}

/// The first `k` paths of a system all exist; `exists[0]` is the source root
/// and `exists[i + 1]` its `i`-th path.
pub open spec fn first_paths_exist(exists: Seq<bool>, k: int) -> bool {
    forall|i: int| 0 <= i < k ==> #[trigger] exists[i + 1]
}

/// The error a system gets from validation, if any, given which of its
/// paths exist.
pub open spec fn validation_error(inst: LocalInstallation, exists: Seq<bool>) -> Option<
    Seq<char>,
> {
    let paths = inst.backup_rel_paths@;
    if !exists[0] {
        Some(missing_source_text(inst.src@, inst.name@))
    } else if paths.len() == 0 {
        Some(no_paths_text(inst.name@))
    } else if first_paths_exist(exists, paths.len() as int) {
        None
    } else {
        let i = choose|i: int|
            0 <= i < paths.len() && !exists[i + 1] && first_paths_exist(exists, i);
        Some(missing_path_text(join_dir(inst.src@, paths[i].rel_path@), inst.name@))
    }
}

/// A backup of one system, ready to run: its planner walks the sources and
/// its rules decide what each entry becomes.
pub struct BackupJob {
    /// The system's name.
    pub system: String,
    /// The source root.
    pub source: String,
    /// The path of the archive to write.
    pub destination: String,
    /// Walks the system's paths.
    pub planner: Planner,
    /// The exclusion rules of each path.
    pub rules: Vec<Vec<ExclusionRule>>,
}

impl BackupJob {
    /// The message for a finished backup, naming the system and the archive.
    pub fn success_message(&self) -> (r: String)
        ensures
            r@ == self.system@ + " backed up to "@ + self.destination@,
    {
        let s = joined(self.system.as_str(), " backed up to ");
        joined(s.as_str(), self.destination.as_str())
    }
}

impl LocalInstallation {
    /// Starts the backup of this system at time `now`: shows its title and
    /// prepares the job that writes `<dest>/<name>_backup_<time>.zip`.
    pub fn backup_at(&self, tui: &mut TUI, now: &Timestamp) -> (r: BackupJob)
        ensures
            final(tui)@ == old(tui)@.push(clear_out()).push(
                text_out(Style::Title, banner_text(upper_of("Backing up "@ + self.name@))),
            ),
            r.system@ == self.name@,
            r.source@ == self.src@,
            r.destination@ == join_dir(self.dest@, archive_name_of(self.name@, *now)),
            r.planner.wf(),
            r.planner.next() == 0,
            r.planner.stack().len() == 0,
            r.planner.paths().len() == self.backup_rel_paths.len(),
            forall|i: int|
                0 <= i < self.backup_rel_paths.len() ==> #[trigger] r.planner.paths()[i]
                    == components_of(self.backup_rel_paths@[i].rel_path@),
            forall|i: int|
                0 <= i < self.backup_rel_paths.len() ==> #[trigger] r.planner.includes()[i]
                    == self.backup_rel_paths@[i].include_subfolders,
            request_rules_ok(self.backup_rel_paths@, r.rules@),
    {
        let title = joined("Backing up ", self.name.as_str());
        tui.write_title(title.as_str());
        BackupJob {
            system: self.name.clone(),
            source: self.src.clone(),
            destination: zip_path_at(self.name.as_str(), self.dest.as_str(), now),
            planner: Planner::new(&self.backup_rel_paths),
            rules: rules_for_requests(&self.backup_rel_paths),
        }
    }

    /// Starts the backup of this system now (see `backup_at`). Two backups
    /// of one system within one second get the same destination.
    pub fn backup(&self, tui: &mut TUI) -> (r: BackupJob)
        ensures
            final(tui)@ == old(tui)@.push(clear_out()).push(
                text_out(Style::Title, banner_text(upper_of("Backing up "@ + self.name@))),
            ),
            r.system@ == self.name@,
            r.source@ == self.src@,
            exists|t: Timestamp|
                t.wf() && r.destination@ == join_dir(self.dest@, archive_name_of(self.name@, t)),
            r.planner.wf(),
            r.planner.next() == 0,
            r.planner.stack().len() == 0,
            r.planner.paths().len() == self.backup_rel_paths.len(),
            request_rules_ok(self.backup_rel_paths@, r.rules@),
    {
        let now = local_now();
        self.backup_at(tui, &now)
    }

    /// The paths whose existence validation needs: the source root, then the
    /// source root joined with each path, in order.
    pub fn checked_paths(&self) -> (r: Vec<String>)
        ensures
            r.len() == self.backup_rel_paths.len() + 1,
            r@[0]@ == self.src@,
            forall|i: int|
                0 <= i < self.backup_rel_paths.len() ==> #[trigger] r@[i + 1]@ == join_dir(
                    self.src@,
                    self.backup_rel_paths@[i].rel_path@,
                ),
    {
        let mut r: Vec<String> = vec![self.src.clone()];
        let mut i: usize = 0;
        while i < self.backup_rel_paths.len()
            invariant
                i <= self.backup_rel_paths.len(),
                r.len() == i + 1,
                r@[0]@ == self.src@,
                forall|k: int|
                    0 <= k < i ==> #[trigger] r@[k + 1]@ == join_dir(
                        self.src@,
                        self.backup_rel_paths@[k].rel_path@,
                    ),
            decreases self.backup_rel_paths.len() - i,
        {
            r.push(join_path(self.src.as_str(), self.backup_rel_paths[i].rel_path.as_str()));
            i = i + 1;
        }
        r
    }

    /// Checks the system before any archive is attempted. `exists` says
    /// which of `checked_paths` exist. The source root must exist, at least
    /// one path must be given, and every path must exist; the first failure
    /// is reported.
    pub fn validate(&self, exists: &Vec<bool>) -> (r: Result<(), Error>)
        requires
            exists.len() == self.backup_rel_paths.len() + 1,
        ensures
            validation_error(*self, exists@) is None <==> r is Ok,
            validation_error(*self, exists@) matches Some(m) ==> (r matches Err(
                Error::ConfigMissingOrInvalid(v),
            ) && views(v@) == seq![m]),
    {
        if !exists[0] {
            let s = joined(self.src.as_str(), " for ");
            let s = joined(s.as_str(), self.name.as_str());
            return Err(invalid(joined(s.as_str(), " system does not exist")));
        }
        if self.backup_rel_paths.len() == 0 {
            let s = joined("No backup folders specified for ", self.name.as_str());
            return Err(invalid(joined(s.as_str(), " system")));
        }
        let mut i: usize = 0;
        while i < self.backup_rel_paths.len()
            invariant
                i <= self.backup_rel_paths.len(),
                exists.len() == self.backup_rel_paths.len() + 1,
                exists@[0],
                first_paths_exist(exists@, i as int),
            decreases self.backup_rel_paths.len() - i,
        {
            if !exists[i + 1] {
                let p = join_path(self.src.as_str(), self.backup_rel_paths[i].rel_path.as_str());
                let s = joined(p.as_str(), " for ");
                let s = joined(s.as_str(), self.name.as_str());
                let e = invalid(joined(s.as_str(), " does not exist"));
                proof {
                    let paths = self.backup_rel_paths@;
                    assert(!first_paths_exist(exists@, paths.len() as int));
                    let j = choose|j: int|
                        0 <= j < paths.len() && !exists@[j + 1] && first_paths_exist(exists@, j);
                    assert(j == i) by {
                        if j < i {
                            assert(exists@[j + 1]);
                        } else if j > i {
                            assert(exists@[i as int + 1]);
                        }
                    }
                }
                return Err(e);
            }
            i = i + 1;
        }
        Ok(())
    }
}

/// An invalid-configuration error of one line.
fn invalid(text: String) -> (r: Error)
    ensures
        r matches Error::ConfigMissingOrInvalid(v) && views(v@) == seq![text@],
{
    let v = vec![text];
    assert(views(v@) =~= seq![v@[0]@]);
    Error::ConfigMissingOrInvalid(v)
}

} // verus!
