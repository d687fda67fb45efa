use vstd::prelude::*;

use crate::error::{joined, views, Error};
use crate::path::{join_slash, member_name, split_components, components_of};

verus! {

/// One path of a system to back up, relative to the system's source root.
pub struct BackupRelPath {
    /// Patterns of files to leave out: a file name, or `*.<ext>`.
    pub excluded_files: Option<Vec<String>>,
    /// The path below the source root; empty for the root itself.
    pub rel_path: String,
    /// Whether directories below the path are entered and recorded.
    pub include_subfolders: bool,
}

/// Something found while walking a request: a file or a directory.
pub struct TraversalEntry {
    /// The components of its path relative to the source root.
    pub rel: Vec<String>,
    /// A regular file (true) or a directory (false).
    pub is_file: bool,
    /// The index of the request it was found under.
    pub request: usize,
}

/// One child of a listed directory.
pub struct DirChild {
    /// Its name within the directory.
    pub name: String,
    /// A regular file (true) or anything else (false).
    pub is_file: bool,
}

/// What a request's path turned out to be on disk.
pub enum PathKind {
    Missing,
    File,
    Dir,
}

/// What the planner needs next from the filesystem.
pub enum PlanStep {
    /// Say what the path of request `request`, with components `rel`, is.
    Resolve { request: usize, rel: Vec<String> },
    /// List the children of the directory with components `dir`.
    List { request: usize, dir: Vec<String> },
    /// Every request has been walked.
    Done,
}

/// The model of an entry: relative components, file or not, request index.
pub type EntryModel = (Seq<Seq<char>>, bool, int);

impl TraversalEntry {
    pub open spec fn view(&self) -> EntryModel {
        (views(self.rel@), self.is_file, self.request as int)
    }
}

impl DirChild {
    pub open spec fn view(&self) -> (Seq<char>, bool) {
        (self.name@, self.is_file)
    }
}

/// The models of a list of entries.
pub open spec fn entry_models(v: Seq<TraversalEntry>) -> Seq<EntryModel> {
    v.map_values(|e: TraversalEntry| e@)
}

/// The models of a list of children.
pub open spec fn child_models(v: Seq<DirChild>) -> Seq<(Seq<char>, bool)> {
    v.map_values(|c: DirChild| c@)
}

/// The entries emitted for the children `kids` of directory `dir`: every file,
/// and every other child when subfolders are included, in listing order.
pub open spec fn listing_entries(
    dir: Seq<Seq<char>>,
    kids: Seq<(Seq<char>, bool)>,
    recurse: bool,
    req: int,
) -> Seq<EntryModel>
    decreases kids.len(),
{
    if kids.len() == 0 {
        seq![]
    } else {
        let prev = listing_entries(dir, kids.drop_last(), recurse, req);
        let (name, is_file) = kids.last();
        if is_file || recurse {
            prev.push((dir.push(name), is_file, req))
        } else {
            prev
        }
    }
}

/// The directories among `kids` that are to be entered next, in listing order.
pub open spec fn listing_dirs(
    dir: Seq<Seq<char>>,
    kids: Seq<(Seq<char>, bool)>,
    recurse: bool,
) -> Seq<Seq<Seq<char>>>
    decreases kids.len(),
{
    if kids.len() == 0 {
        seq![]
    } else {
        let prev = listing_dirs(dir, kids.drop_last(), recurse);
        let (name, is_file) = kids.last();
        if !is_file && recurse {
            prev.push(dir.push(name))
        } else {
            prev
        }
    }
}

/// Every entry emitted for a listing lies directly below the listed
/// directory, and every directory stacked for a listing too.
pub proof fn lemma_listing_stays_below(
    dir: Seq<Seq<char>>,
    kids: Seq<(Seq<char>, bool)>,
    recurse: bool,
    req: int,
)
    ensures
        forall|k: int|
            0 <= k < listing_entries(dir, kids, recurse, req).len() ==> {
                let e = #[trigger] listing_entries(dir, kids, recurse, req)[k];
                &&& e.0.len() == dir.len() + 1
                &&& e.0.subrange(0, dir.len() as int) == dir
                &&& e.2 == req
            },
        forall|k: int|
            0 <= k < listing_dirs(dir, kids, recurse).len() ==> {
                let d = #[trigger] listing_dirs(dir, kids, recurse)[k];
                &&& d.len() == dir.len() + 1
                &&& d.subrange(0, dir.len() as int) == dir
            },
    decreases kids.len(),
{
    if kids.len() > 0 {
        let front = kids.drop_last();
        lemma_listing_stays_below(dir, front, recurse, req);
        let name = kids.last().0;
        assert(dir.push(name).subrange(0, dir.len() as int) =~= dir);
        let prev = listing_entries(dir, front, recurse, req);
        let cur = listing_entries(dir, kids, recurse, req);
        assert forall|k: int| 0 <= k < cur.len() implies {
            let e = #[trigger] cur[k];
            &&& e.0.len() == dir.len() + 1
            &&& e.0.subrange(0, dir.len() as int) == dir
            &&& e.2 == req
        } by {
            if k < prev.len() {
                assert(cur[k] == prev[k]);
            }
        }
        let prev_dirs = listing_dirs(dir, front, recurse);
        let cur_dirs = listing_dirs(dir, kids, recurse);
        assert forall|k: int| 0 <= k < cur_dirs.len() implies {
            let d = #[trigger] cur_dirs[k];
            &&& d.len() == dir.len() + 1
            &&& d.subrange(0, dir.len() as int) == dir
        } by {
            if k < prev_dirs.len() {
                assert(cur_dirs[k] == prev_dirs[k]);
            }
        }
    }
}

/// Walks the requests of one system with an explicit stack of directories,
/// one filesystem question at a time (see `next_step`).
pub struct Planner {
    paths: Vec<Vec<String>>,
    includes: Vec<bool>,
    next: usize,
    current: usize,
    stack: Vec<Vec<String>>,
}

/// Copies a list of strings.
pub fn clone_strings(v: &Vec<String>) -> (r: Vec<String>)
    ensures
        r@ == v@,
{
    let mut r: Vec<String> = Vec::new();
    let mut i: usize = 0;
    while i < v.len()
        invariant
            i <= v.len(),
            r@ == v@.subrange(0, i as int),
        decreases v.len() - i,
    {
        r.push(v[i].clone());
        assert(r@ =~= v@.subrange(0, i + 1));
        i = i + 1;
    }
    assert(v@.subrange(0, i as int) =~= v@);
    r
}

impl Planner {
    /// The components of each request's path.
    pub closed spec fn paths(&self) -> Seq<Seq<Seq<char>>> {
        self.paths@.map_values(|p: Vec<String>| views(p@))
    }

    /// Whether each request includes subfolders.
    pub closed spec fn includes(&self) -> Seq<bool> {
        self.includes@
    }

    /// The index of the next request to resolve.
    pub closed spec fn next(&self) -> int {
        self.next as int
    }

    /// The request whose directories are on the stack.
    pub closed spec fn current(&self) -> int {
        self.current as int
    }

    /// The directories waiting to be listed; the last is listed first.
    pub closed spec fn stack(&self) -> Seq<Seq<Seq<char>>> {
        self.stack@.map_values(|p: Vec<String>| views(p@))
    }

    pub closed spec fn wf(&self) -> bool {
        &&& self.paths.len() == self.includes.len()
        &&& self.next <= self.paths.len()
        &&& self.stack.len() > 0 ==> self.current < self.next
    }

    /// A planner for `requests`, walked in order.
    pub fn new(requests: &Vec<BackupRelPath>) -> (r: Planner)
        ensures
            r.wf(),
            r.paths().len() == requests.len(),
            forall|i: int|
                0 <= i < requests.len() ==> #[trigger] r.paths()[i] == components_of(
                    requests@[i].rel_path@,
                ),
            forall|i: int|
                0 <= i < requests.len() ==> #[trigger] r.includes()[i]
                    == requests@[i].include_subfolders,
            r.next() == 0,
            r.stack().len() == 0,
    {
        let mut paths: Vec<Vec<String>> = Vec::new();
        let mut includes: Vec<bool> = Vec::new();
        let mut i: usize = 0;
        while i < requests.len()
            invariant
                i <= requests.len(),
                paths.len() == i,
                includes.len() == i,
                forall|j: int|
                    0 <= j < i ==> #[trigger] views(paths@[j]@) == components_of(
                        requests@[j].rel_path@,
                    ),
                forall|j: int|
                    0 <= j < i ==> #[trigger] includes@[j] == requests@[j].include_subfolders,
            decreases requests.len() - i,
        {
            paths.push(split_components(requests[i].rel_path.as_str()));
            includes.push(requests[i].include_subfolders);
            i = i + 1;
        }
        let r = Planner { paths, includes, next: 0, current: 0, stack: Vec::new() };
        assert(r.stack() =~= Seq::<Seq<Seq<char>>>::empty());
        r
    }

    /// What the planner needs next: the directory on top of the stack is
    /// listed first; with the stack empty, the next request is resolved.
    pub fn next_step(&self) -> (r: PlanStep)
        requires
            self.wf(),
        ensures
            self.stack().len() > 0 ==> (r matches PlanStep::List { request, dir } && request
                == self.current() && views(dir@) == self.stack().last()),
            self.stack().len() == 0 && self.next() < self.paths().len() ==> (
            r matches PlanStep::Resolve { request, rel } && request == self.next() && views(rel@)
                == self.paths()[self.next()]),
            self.stack().len() == 0 && self.next() == self.paths().len() ==> r is Done,
    {
        if self.stack.len() > 0 {
            let dir = clone_strings(&self.stack[self.stack.len() - 1]);
            PlanStep::List { request: self.current, dir }
        } else if self.next < self.paths.len() {
            let rel = clone_strings(&self.paths[self.next]);
            PlanStep::Resolve { request: self.next, rel }
        } else {
            PlanStep::Done
        }
    }

    /// Takes what the path of the next request is. A missing path fails the
    /// whole plan; a file is one entry; a directory goes on the stack.
    pub fn resolved(&mut self, kind: PathKind) -> (r: Result<Vec<TraversalEntry>, Error>)
        requires
            old(self).wf(),
            old(self).stack().len() == 0,
            old(self).next() < old(self).paths().len(),
        ensures
            final(self).wf(),
            final(self).paths() == old(self).paths(),
            final(self).includes() == old(self).includes(),
            kind is Missing <==> r is Err,
            kind is Missing ==> (r matches Err(Error::SourceMissing(m)) && m@ == join_slash(
                old(self).paths()[old(self).next()],
            ) + " does not exist"@),
            kind is File ==> (r matches Ok(v) && entry_models(v@) == seq![
                (old(self).paths()[old(self).next()], true, old(self).next()),
            ] && final(self).stack().len() == 0),
            kind is Dir ==> (r matches Ok(v) && v.len() == 0 && final(self).stack() == seq![
                old(self).paths()[old(self).next()],
            ] && final(self).current() == old(self).next()),
            r is Ok ==> final(self).next() == old(self).next() + 1,
    {
        let i = self.next;
        let ghost p = self.paths();
        assert(views(self.paths@[i as int]@) == p[i as int]);
        match kind {
            PathKind::Missing => {
                let shown = member_name(&self.paths[i], false);
                let m = joined(shown.as_str(), " does not exist");
                Err(Error::SourceMissing(m))
            },
            PathKind::File => {
                let e = TraversalEntry { rel: clone_strings(&self.paths[i]), is_file: true, request: i };
                let v = vec![e];
                self.next = i + 1;
                assert(self.paths() == p);
                assert(entry_models(v@) =~= seq![(p[i as int], true, i as int)]);
                assert(self.stack() =~= Seq::<Seq<Seq<char>>>::empty());
                Ok(v)
            },
            PathKind::Dir => {
                let d = clone_strings(&self.paths[i]);
                self.stack.push(d);
                self.current = i;
                self.next = i + 1;
                assert(self.paths() == p);
                assert(self.stack() =~= seq![p[i as int]]);
                Ok(Vec::new())
            },
        }
    }

    /// Takes the children of the directory on top of the stack, in the
    /// order the filesystem gave them. Files become entries; other children,
    /// when the request includes subfolders, become entries and are stacked.
    pub fn listed(&mut self, children: &Vec<DirChild>) -> (r: Vec<TraversalEntry>)
        requires
            old(self).wf(),
            old(self).stack().len() > 0,
        ensures
            final(self).wf(),
            final(self).paths() == old(self).paths(),
            final(self).includes() == old(self).includes(),
            final(self).next() == old(self).next(),
            final(self).current() == old(self).current(),
            entry_models(r@) == listing_entries(
                old(self).stack().last(),
                child_models(children@),
                old(self).includes()[old(self).current()],
                old(self).current(),
            ),
            final(self).stack() == old(self).stack().drop_last() + listing_dirs(
                old(self).stack().last(),
                child_models(children@),
                old(self).includes()[old(self).current()],
            ),
            forall|k: int| 0 <= k < r.len() ==> (#[trigger] r@[k]).rel.len() > 0,
            forall|k: int|
                0 <= k < r.len() ==> views((#[trigger] r@[k]).rel@).subrange(
                    0,
                    old(self).stack().last().len() as int,
                ) == old(self).stack().last() && r@[k].rel.len() == old(self).stack().last().len()
                    + 1 && r@[k].request == old(self).current(),
    {
        let ghost old_stack = self.stack();
        let ghost kids = child_models(children@);
        let dir = self.stack.pop().unwrap();
        let ghost d = views(dir@);
        let ghost base = self.stack();
        assert(base =~= old_stack.drop_last());
        let recurse = self.includes[self.current];
        let req = self.current;
        let mut out: Vec<TraversalEntry> = Vec::new();
        let mut i: usize = 0;
        while i < children.len()
            invariant
                self.wf(),
                self.paths.len() == self.includes.len(),
                self.next <= self.paths.len(),
                self.current < self.next,
                self.paths() == old(self).paths(),
                self.includes() == old(self).includes(),
                self.next() == old(self).next(),
                self.current() == old(self).current(),
                req == self.current,
                recurse == self.includes@[req as int],
                i <= children.len(),
                kids == child_models(children@),
                d == views(dir@),
                entry_models(out@) == listing_entries(d, kids.subrange(0, i as int), recurse, req as int),
                self.stack() == base + listing_dirs(d, kids.subrange(0, i as int), recurse),
                forall|k: int| 0 <= k < out.len() ==> (#[trigger] out@[k]).rel.len() > 0,
            decreases children.len() - i,
        {
            assert(kids.subrange(0, i + 1).drop_last() =~= kids.subrange(0, i as int));
            assert(kids.subrange(0, i + 1).last() == kids[i as int]);
            let c = &children[i];
            if c.is_file || recurse {
                let mut rel = clone_strings(&dir);
                rel.push(c.name.clone());
                proof {
                    crate::error::lemma_views_push(dir@, c.name);
                }
                let ghost before = out@;
                assert(kids[i as int] == c@);
                assert(views(rel@) == d.push(c.name@));
                if !c.is_file {
                    let ghost before_stack = self.stack();
                    let copy = clone_strings(&rel);
                    self.stack.push(copy);
                    assert(self.stack() =~= before_stack.push(views(rel@)));
                    assert(self.stack() =~= base + listing_dirs(d, kids.subrange(0, i + 1), recurse));
                }
                out.push(TraversalEntry { rel, is_file: c.is_file, request: req });
                assert(entry_models(out@) =~= entry_models(before).push(out@.last()@));
            }
            i = i + 1;
        }
        assert(kids.subrange(0, i as int) =~= kids);
        proof {
            lemma_listing_stays_below(d, kids, recurse, req as int);
            assert forall|k: int| 0 <= k < out.len() implies views((#[trigger] out@[k]).rel@).subrange(
                0,
                d.len() as int,
            ) == d && out@[k].rel.len() == d.len() + 1 && out@[k].request == req by {
                assert(entry_models(out@)[k] == out@[k]@);
            }
        }
        out
    }
}

} // verus!
