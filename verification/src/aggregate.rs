use vstd::hash_set::StringHashSet;
use vstd::prelude::*;

use crate::extract::{collect_manifest_deps, manifest_records};
use crate::item::{Item, Node};
use crate::manifest::{document_of, parse_manifest};
use crate::record::{views, DependencyRecord, RecordView};

verus! {

/// The state of a scan: the projects seen so far and the records gathered
/// from them, in the order in which they were found.
pub struct ScanState {
    pub visited: Set<Seq<char>>,
    pub records: Seq<RecordView>,
}

/// The records that a manifest contributes; one that could not be read or
/// parsed contributes none.
pub open spec fn contribution(project: Seq<char>, manifest: Option<Node>) -> Seq<RecordView> {
    match manifest {
        Some(m) => manifest_records(project, m),
        None => Seq::empty(),
    }
}

impl ScanState {
    /// The state before anything was found.
    pub open spec fn start() -> ScanState {
        ScanState { visited: Set::empty(), records: Seq::empty() }
    }

    /// Whether `project` has not been seen yet.
    pub open spec fn admits(self, project: Seq<char>) -> bool {
        !self.visited.contains(project)
    }

    /// The state after `project` was marked as seen.
    pub open spec fn visit(self, project: Seq<char>) -> ScanState {
        ScanState { visited: self.visited.insert(project), records: self.records }
    }

    /// The state after the records of a manifest were appended.
    pub open spec fn absorb(self, project: Seq<char>, manifest: Option<Node>) -> ScanState {
        ScanState {
            visited: self.visited,
            records: self.records + contribution(project, manifest),
        }
    }

    /// The state after one manifest was found: a project seen for the first
    /// time is marked and its records are appended; a project seen before
    /// changes nothing.
    pub open spec fn discover(self, project: Seq<char>, manifest: Option<Node>) -> ScanState {
        if self.admits(project) {
            self.visit(project).absorb(project, manifest)
        } else {
            self
        }
    }

    /// The state after a run of manifests was found, one after the other.
    pub open spec fn discover_all(self, found: Seq<(Seq<char>, Option<Node>)>) -> ScanState
        decreases found.len(),
    {
        if found.len() == 0 {
            self
        } else {
            self.discover_all(found.drop_last()).discover(found.last().0, found.last().1)
        }
    }
}

/// Gathers the records of the manifests of a tree, each project once.
pub struct Aggregator {
    visited: StringHashSet,
    records: Vec<DependencyRecord>,
}

impl View for Aggregator {
    type V = ScanState;

    closed spec fn view(&self) -> ScanState {
        ScanState { visited: self.visited@, records: views(self.records@) }
    }
}

impl Aggregator {
    /// An aggregator that has seen nothing.
    pub fn new() -> (fresh: Aggregator)
        ensures
            fresh@ == ScanState::start(),
    {
        let fresh = Aggregator { visited: StringHashSet::new(), records: Vec::new() };
        assert(views(fresh.records@) =~= Seq::empty());
        fresh
    }

    /// Marks `project_id` as seen. Returns true the first time a project is
    /// met and false every time after.
    pub fn visit(&mut self, project_id: &str) -> (first: bool)
        ensures
            first == old(self)@.admits(project_id@),
            final(self)@ == old(self)@.visit(project_id@),
    {
        self.visited.insert(project_id.to_owned())
    }

    /// Appends the records of an already parsed manifest.
    pub fn absorb_manifest(&mut self, project_id: &str, manifest: &Item)
        ensures
            final(self)@ == old(self)@.absorb(project_id@, Some(manifest@)),
    {
        collect_manifest_deps(project_id, manifest, &mut self.records);
    }

    /// Parses the text of a manifest and appends its records. A text that
    /// is not well-formed adds nothing.
    pub fn absorb(&mut self, project_id: &str, text: &str)
        ensures
            final(self)@ == old(self)@.absorb(project_id@, document_of(text@)),
    {
        match parse_manifest(text) {
            Some(manifest) => self.absorb_manifest(project_id, &manifest),
            None => {
                assert(self@.records =~= self@.records + Seq::<RecordView>::empty());
            },
        }
    }

    /// Takes in one found manifest: `text` is what was read from it, or
    /// `None` where it could not be read. A project met before is skipped.
    pub fn discover(&mut self, project_id: &str, text: Option<&str>)
        ensures
            final(self)@ == old(self)@.discover(
                project_id@,
                match text {
                    Some(t) => document_of(t@),
                    None => None,
                },
            ),
    {
        if self.visit(project_id) {
            match text {
                Some(t) => self.absorb(project_id, t),
                None => {
                    assert(self@.records =~= self@.records + Seq::<RecordView>::empty());
                },
            }
        } else {
            assert(self@.visited =~= old(self)@.visited);
        }
    }

    /// The records gathered so far.
    pub fn records(&self) -> (gathered: &Vec<DependencyRecord>)
        ensures
            views(gathered@) == self@.records,
    {
        &self.records
    }

    /// Ends the scan and hands out the records.
    pub fn into_records(self) -> (gathered: Vec<DependencyRecord>)
        ensures
            views(gathered@) == self@.records,
    {
        self.records
    }
}

/// A scan never forgets a project: what was seen before a run of
/// discoveries is still marked after it, and so is every project of the run.
pub proof fn lemma_discovered_are_visited(state: ScanState, found: Seq<(Seq<char>, Option<Node>)>)
    ensures
        forall|p: Seq<char>|
            state.visited.contains(p) ==> #[trigger] state.discover_all(found).visited.contains(p),
        forall|k: int|
            0 <= k < found.len() ==> state.discover_all(found).visited.contains(
                (#[trigger] found[k]).0,
            ),
    decreases found.len(),
{
    if found.len() > 0 {
        let earlier = found.drop_last();
        lemma_discovered_are_visited(state, earlier);
        let before = state.discover_all(earlier);
        assert forall|p: Seq<char>| state.visited.contains(p) implies #[trigger] state.discover_all(
            found,
        ).visited.contains(p) by {
            assert(before.visited.contains(p));
        }
        assert forall|k: int| 0 <= k < found.len() implies state.discover_all(
            found,
        ).visited.contains((#[trigger] found[k]).0) by {
            if k < earlier.len() {
                assert(earlier[k] == found[k]);
                assert(before.visited.contains(earlier[k].0));
            }
        }
    }
}

/// Dedup by project: once a project was found, finding it again changes
/// neither the records nor the projects seen, whatever the manifest holds
/// the second time.
pub proof fn lemma_repeated_discovery_is_ignored(
    state: ScanState,
    project: Seq<char>,
    first: Option<Node>,
    second: Option<Node>,
)
    ensures
        state.discover(project, first).discover(project, second) == state.discover(project, first),
{
}

/// Dedup by project, over a whole scan: where a run of discoveries holds
/// the same project at two places, the later one contributes nothing, and
/// the scan ends as if it had not been there.
pub proof fn lemma_later_discovery_is_ignored(
    state: ScanState,
    found: Seq<(Seq<char>, Option<Node>)>,
    i: int,
    j: int,
)
    requires
        0 <= i < j < found.len(),
        found[i].0 == found[j].0,
    ensures
        state.discover_all(found) == state.discover_all(found.remove(j)),
    decreases found.len(),
{
    let earlier = found.drop_last();
    if j == found.len() - 1 {
        lemma_discovered_are_visited(state, earlier);
        assert(earlier[i] == found[i]);
        assert(found.remove(j) =~= earlier);
    } else {
        lemma_later_discovery_is_ignored(state, earlier, i, j);
        let kept = found.remove(j);
        assert(kept.drop_last() =~= earlier.remove(j));
        assert(kept.last() == found.last());
    }
}

/// A run of discoveries whose projects were all seen before changes nothing.
pub proof fn lemma_seen_projects_add_nothing(
    state: ScanState,
    found: Seq<(Seq<char>, Option<Node>)>,
)
    requires
        forall|k: int| 0 <= k < found.len() ==> state.visited.contains((#[trigger] found[k]).0),
    ensures
        state.discover_all(found) == state,
    decreases found.len(),
{
    if found.len() > 0 {
        let earlier = found.drop_last();
        assert forall|k: int| 0 <= k < earlier.len() implies state.visited.contains(
            (#[trigger] earlier[k]).0,
        ) by {
            assert(earlier[k] == found[k]);
        }
        lemma_seen_projects_add_nothing(state, earlier);
    }
}

/// Idempotence: going through the same manifests a second time leaves the
/// gathered records, and hence every report made from them, unchanged.
pub proof fn lemma_second_pass_adds_nothing(state: ScanState, found: Seq<(Seq<char>, Option<Node>)>)
    ensures
        state.discover_all(found).discover_all(found) == state.discover_all(found),
{
    lemma_discovered_are_visited(state, found);
    lemma_seen_projects_add_nothing(state.discover_all(found), found);
}

} // verus!
