use vstd::prelude::*;
use vstd::string::StrSliceExecFns;

use crate::error::{joined, views, Error};
use crate::matcher::{is_excluded, rules_from_patterns, spec_is_excluded, ExclusionRule};
use crate::path::{components_of, lemma_member_name_splits_back, member_name, member_name_of, plain_component};
use crate::planner::{BackupRelPath, TraversalEntry};

verus! {

broadcast use vstd::string::group_string_axioms;

/// The extension every archive this library writes carries.
pub open spec fn archive_suffix() -> Seq<char> {
    ".zip"@
}

/// Does `s` end with `suffix`?
pub open spec fn ends_with(s: Seq<char>, suffix: Seq<char>) -> bool {
    s.len() >= suffix.len() && s.subrange(s.len() - suffix.len(), s.len() as int) == suffix
}

/// Does the path `dest` name an archive file?
pub fn has_archive_suffix(dest: &str) -> (r: bool)
    ensures
        r == ends_with(dest@, archive_suffix()),
{
    proof {
        reveal_strlit(".zip");
    }
    let n = dest.unicode_len();
    if n < 4 {
        return false;
    }
    let tail = dest.substring_char(n - 4, n).to_string();
    let want = ".zip".to_string();
    tail == want
}

/// What is known of the filesystem before an archive is written.
pub struct DestinationFacts {
    /// Something exists at the destination path.
    pub dest_exists: bool,
    /// The source root exists.
    pub source_exists: bool,
    /// The destination path has a parent directory.
    pub has_parent: bool,
}

/// The checks made before anything is written, in this order: the
/// destination must not exist, must end in `.zip`, the source root must
/// exist, and the destination must have a parent directory.
pub fn check_destination(dest: &str, source: &str, facts: &DestinationFacts) -> (r: Result<
    (),
    Error,
>)
    ensures
        facts.dest_exists ==> (r matches Err(Error::DestinationConflict(m)) && m@ == dest@
            + " already exists!"@),
        !facts.dest_exists && !ends_with(dest@, archive_suffix()) ==> (r matches Err(
            Error::DestinationConflict(m),
        ) && m@ == dest@ + " is not a zip file!"@),
        !facts.dest_exists && ends_with(dest@, archive_suffix()) && !facts.source_exists ==> (
        r matches Err(Error::SourceMissing(m)) && m@ == source@ + " does not exist"@),
        !facts.dest_exists && ends_with(dest@, archive_suffix()) && facts.source_exists
            && !facts.has_parent ==> (r matches Err(Error::DestinationConflict(m)) && m@ == dest@
            + " is an invalid path"@),
        r is Ok <==> (!facts.dest_exists && ends_with(dest@, archive_suffix())
            && facts.source_exists && facts.has_parent),
{
    if facts.dest_exists {
        return Err(Error::DestinationConflict(joined(dest, " already exists!")));
    }
    if !has_archive_suffix(dest) {
        return Err(Error::DestinationConflict(joined(dest, " is not a zip file!")));
    }
    if !facts.source_exists {
        return Err(Error::SourceMissing(joined(source, " does not exist")));
    }
    if !facts.has_parent {
        return Err(Error::DestinationConflict(joined(dest, " is an invalid path")));
    }
    Ok(())
}

/// The exclusion rules of each request, in request order; a request
/// without patterns has none.
pub open spec fn request_rules_ok(
    requests: Seq<BackupRelPath>,
    rules: Seq<Vec<ExclusionRule>>,
) -> bool {
    &&& rules.len() == requests.len()
    &&& forall|i: int|
        0 <= i < requests.len() ==> {
            let pats = requests[i].excluded_files;
            let rs = #[trigger] rules[i];
            match pats {
                None => rs.len() == 0,
                Some(p) => rs.len() == p.len() && forall|j: int|
                    0 <= j < p.len() ==> #[trigger] rs@[j]@ == ExclusionRule::spec_from_pattern(
                        p@[j]@,
                    ),
            }
        }
}

/// The exclusion rules of each request, in request order.
pub fn rules_for_requests(requests: &Vec<BackupRelPath>) -> (r: Vec<Vec<ExclusionRule>>)
    ensures
        request_rules_ok(requests@, r@),
{
    let mut r: Vec<Vec<ExclusionRule>> = Vec::new();
    let mut i: usize = 0;
    while i < requests.len()
        invariant
            i <= requests.len(),
            request_rules_ok(requests@.subrange(0, i as int), r@),
        decreases requests.len() - i,
    {
        let rs = match &requests[i].excluded_files {
            None => Vec::new(),
            Some(p) => rules_from_patterns(p),
        };
        r.push(rs);
        assert(requests@.subrange(0, i + 1).last() == requests@[i as int]);
        i = i + 1;
    }
    assert(requests@.subrange(0, i as int) =~= requests@);
    r
}

/// What to do with one entry of the plan.
pub enum ArchiveAction {
    /// An excluded file, with its member name: left out.
    Skip(String),
    /// A file stored, compressed, under this member name.
    AddFile(String),
    /// An empty directory member under this name.
    AddDir(String),
}

/// The base name of a path with components `rel`: its last component.
pub open spec fn base_name_of(rel: Seq<Seq<char>>) -> Seq<char> {
    if rel.len() == 0 {
        seq![]
    } else {
        rel.last()
    }
}

/// The action owed to an entry with components `rel`, under `rules`.
pub open spec fn action_of(rel: Seq<Seq<char>>, is_file: bool, rules: Seq<ExclusionRule>) -> (
    int,
    Seq<char>,
) {
    if !is_file {
        (2, member_name_of(rel, true))
    } else if spec_is_excluded(base_name_of(rel), rules) {
        (0, member_name_of(rel, false))
    } else {
        (1, member_name_of(rel, false))
    }
}

impl ArchiveAction {
    /// 0 for a skip, 1 for a file, 2 for a directory; and the member name.
    pub open spec fn view(&self) -> (int, Seq<char>) {
        match self {
            ArchiveAction::Skip(n) => (0, n@),
            ArchiveAction::AddFile(n) => (1, n@),
            ArchiveAction::AddDir(n) => (2, n@),
        }
    }

    /// The progress line for the action.
    pub open spec fn spec_task(&self) -> Seq<char> {
        match self {
            ArchiveAction::Skip(n) => "Skipping "@ + n@,
            ArchiveAction::AddFile(n) => "Zipping "@ + n@,
            ArchiveAction::AddDir(n) => "Adding path "@ + n@ + " to zip"@,
        }
    }

    /// The progress line for the action, for the user.
    pub fn task(&self) -> (r: String)
        ensures
            r@ == self.spec_task(),
    {
        match self {
            ArchiveAction::Skip(n) => joined("Skipping ", n.as_str()),
            ArchiveAction::AddFile(n) => joined("Zipping ", n.as_str()),
            ArchiveAction::AddDir(n) => {
                let s = joined("Adding path ", n.as_str());
                joined(s.as_str(), " to zip")
            },
        }
    }
}

/// Decides what becomes of one entry: a directory is registered as an empty
/// member; a file is skipped when a rule of its request matches its base
/// name, and stored otherwise. Member names use `'/'` whatever the host.
pub fn plan_member(entry: &TraversalEntry, rules: &Vec<Vec<ExclusionRule>>) -> (r: ArchiveAction)
    requires
        entry.request < rules.len(),
    ensures
        r@ == action_of(views(entry.rel@), entry.is_file, rules@[entry.request as int]@),
{
    if !entry.is_file {
        return ArchiveAction::AddDir(member_name(&entry.rel, true));
    }
    let name = member_name(&entry.rel, false);
    let n = entry.rel.len();
    let excluded = if n == 0 {
        proof {
            reveal_strlit("");
        }
        assert(""@ =~= base_name_of(views(entry.rel@)));
        is_excluded("", &rules[entry.request])
    } else {
        assert(entry.rel@[n - 1]@ == base_name_of(views(entry.rel@)));
        is_excluded(entry.rel[n - 1].as_str(), &rules[entry.request])
    };
    if excluded {
        ArchiveAction::Skip(name)
    } else {
        ArchiveAction::AddFile(name)
    }
}

/// A file that no rule of its request excludes is stored, under a member
/// name that splits back into exactly its path relative to the source root;
/// an excluded one is skipped, and a directory is registered under the same
/// path with a trailing `'/'`.
pub proof fn lemma_members_keep_relative_paths(rel: Seq<Seq<char>>, rules: Seq<ExclusionRule>)
    requires
        forall|i: int| 0 <= i < rel.len() ==> plain_component(#[trigger] rel[i]),
    ensures
        !spec_is_excluded(base_name_of(rel), rules) ==> action_of(rel, true, rules).0 == 1,
        spec_is_excluded(base_name_of(rel), rules) ==> action_of(rel, true, rules).0 == 0,
        components_of(action_of(rel, true, rules).1) == rel,
        action_of(rel, false, rules).0 == 2,
        components_of(action_of(rel, false, rules).1) == rel,
{
    lemma_member_name_splits_back(rel);
}

/// The task line shown once every entry has been written.
pub fn finished_task() -> (r: String)
    ensures
        r@ == "All entries zipped..."@,
{
    "All entries zipped...".to_string()
}

} // verus!
