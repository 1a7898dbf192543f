use vstd::prelude::*;

use crate::record::{views, DependencyRecord, RecordView};
use crate::item::{distinct_keys, has_key, lookup, Node, Item};

verus! {

/// The text a record carries when a declaration names neither a version nor
/// a source.
pub open spec fn unknown_version() -> Seq<char> {
    "unknown"@
}

impl Node {
    /// A declaration that points into the same tree: a table with a `path` key.
    pub open spec fn is_local(self) -> bool {
        self matches Node::Table(t) && has_key(t, "path"@)
    }

    /// A declaration that leaves resolution to the workspace: a table whose
    /// `workspace` key holds the boolean true.
    pub open spec fn is_workspace_inherited(self) -> bool {
        self matches Node::Table(t) && lookup(t, "workspace"@) == Some(Node::Bool(true))
    }

    /// A declaration that yields a record.
    pub open spec fn is_external(self) -> bool {
        !self.is_local() && !self.is_workspace_inherited()
    }

    /// What a table names as its version: the value under `version`, or,
    /// where there is no such key, the value under `git`.
    pub open spec fn version_source(t: Seq<(Seq<char>, Node)>) -> Option<Node> {
        if has_key(t, "version"@) {
            lookup(t, "version"@)
        } else {
            lookup(t, "git"@)
        }
    }

    /// The version text shown for a declaration.
    pub open spec fn display_version(self) -> Seq<char> {
        match self {
            Node::Str(s) => s,
            Node::Table(t) => match Node::version_source(t) {
                Some(Node::Str(s)) => s,
                _ => unknown_version(),
            },
            _ => unknown_version(),
        }
    }
}

impl Item {
    /// Whether the declaration is local.
    pub fn is_local(&self) -> (local: bool)
        ensures
            local == self@.is_local(),
    {
        match self {
            Item::Table(t) => t.contains_key("path"),
            _ => false,
        }
    }

    /// Whether the declaration is inherited from the workspace.
    pub fn is_workspace_inherited(&self) -> (inherited: bool)
        ensures
            inherited == self@.is_workspace_inherited(),
    {
        match self {
            Item::Table(t) => match t.get("workspace") {
                Some(Item::Bool(b)) => *b,
                _ => false,
            },
            _ => false,
        }
    }

    /// The version text shown for the declaration.
    pub fn display_version(&self) -> (version: String)
        ensures
            version@ == self@.display_version(),
    {
        match self {
            Item::String(s) => s.clone(),
            Item::Table(t) => {
                let named = match t.get("version") {
                    Some(v) => Some(v),
                    None => t.get("git"),
                };
                match named {
                    Some(Item::String(s)) => s.clone(),
                    _ => "unknown".to_owned(),
                }
            },
            _ => "unknown".to_owned(),
        }
    }
}

/// The record that an entry of a section yields.
pub open spec fn record_of(project: Seq<char>, section: Seq<char>, entry: (Seq<char>, Node)) -> RecordView {
    RecordView { project, section, name: entry.0, version: entry.1.display_version() }
}

/// The records of a section's entries: one for each external entry, in the
/// order of the entries.
pub open spec fn extract_entries(
    project: Seq<char>,
    section: Seq<char>,
    entries: Seq<(Seq<char>, Node)>,
) -> Seq<RecordView> {
    entries.filter(|e: (Seq<char>, Node)| e.1.is_external()).map_values(
        |e: (Seq<char>, Node)| record_of(project, section, e),
    )
}

/// The records of a section. A value that is no table yields none.
pub open spec fn extracted(project: Seq<char>, section: Seq<char>, value: Node) -> Seq<RecordView> {
    match value {
        Node::Table(t) => extract_entries(project, section, t),
        _ => Seq::empty(),
    }
}

/// The records of a section that may be absent.
pub open spec fn section_records(project: Seq<char>, label: Seq<char>, section: Option<Node>) -> Seq<
    RecordView,
> {
    match section {
        Some(value) => extracted(project, label, value),
        None => Seq::empty(),
    }
}

/// The `dependencies` table nested in the top-level `workspace` table.
pub open spec fn workspace_section(manifest: Node) -> Option<Node> {
    match manifest.get("workspace"@) {
        Some(workspace) => workspace.get("dependencies"@),
        None => None,
    }
}

/// The records of a whole manifest: the three top-level sections, then the
/// workspace section.
pub open spec fn manifest_records(project: Seq<char>, manifest: Node) -> Seq<RecordView> {
    section_records(project, "dependencies"@, manifest.get("dependencies"@)) + section_records(
        project,
        "dev-dependencies"@,
        manifest.get("dev-dependencies"@),
    ) + section_records(project, "build-dependencies"@, manifest.get("build-dependencies"@))
        + section_records(project, "workspace.dependencies"@, workspace_section(manifest))
}

/// One more entry adds its record when it is external, and nothing otherwise.
pub proof fn lemma_extract_entries_push(
    project: Seq<char>,
    section: Seq<char>,
    entries: Seq<(Seq<char>, Node)>,
    entry: (Seq<char>, Node),
)
    ensures
        extract_entries(project, section, entries.push(entry)) == if entry.1.is_external() {
            extract_entries(project, section, entries).push(record_of(project, section, entry))
        } else {
            extract_entries(project, section, entries)
        },
{
    reveal(Seq::filter);
    let keep = |e: (Seq<char>, Node)| e.1.is_external();
    let longer = entries.push(entry);
    assert(longer.drop_last() =~= entries);
    assert(longer.last() == entry);
    if entry.1.is_external() {
        assert(longer.filter(keep) == entries.filter(keep).push(entry));
        assert(extract_entries(project, section, longer) =~= extract_entries(
            project,
            section,
            entries,
        ).push(record_of(project, section, entry)));
    } else {
        assert(longer.filter(keep) == entries.filter(keep));
    }
}

/// Appends to `entries` the records of the section `deps`, declared under
/// the label `section` by the manifest `project`.
pub fn collect_external_deps(
    project: &str,
    section: &str,
    deps: &Item,
    entries: &mut Vec<DependencyRecord>,
)
    ensures
        views(final(entries)@) == views(old(entries)@) + extracted(project@, section@, deps@),
{
    if let Some(table) = deps.as_table() {
        let n = table.len();
        let mut i: usize = 0;
        proof {
            reveal(Seq::filter);
            assert(table@.take(0) =~= Seq::empty());
            assert(views(entries@) =~= views(old(entries)@) + extract_entries(
                project@,
                section@,
                table@.take(0),
            ));
        }
        while i < n
            invariant
                i <= n,
                n == table@.len(),
                views(entries@) == views(old(entries)@) + extract_entries(
                    project@,
                    section@,
                    table@.take(i as int),
                ),
            decreases n - i,
        {
            let value = table.value_at(i);
            let ghost before = entries@;
            if !(value.is_local() || value.is_workspace_inherited()) {
                let version = value.display_version();
                entries.push(DependencyRecord::new(project, section, table.key_at(i), version));
                assert(views(entries@) =~= views(before).push(
                    record_of(project@, section@, table@[i as int]),
                ));
            }
            proof {
                lemma_extract_entries_push(
                    project@,
                    section@,
                    table@.take(i as int),
                    table@[i as int],
                );
                assert(table@.take(i + 1) =~= table@.take(i as int).push(table@[i as int]));
            }
            i += 1;
        }
        assert(table@.take(n as int) =~= table@);
    } else {
        assert(views(entries@) =~= views(old(entries)@) + Seq::<RecordView>::empty());
    }
}

/// The records of the section `section_value`, declared under the label
/// `section_name` by the manifest `project_id`.
pub fn extract(project_id: &str, section_name: &str, section_value: &Item) -> (records: Vec<
    DependencyRecord,
>)
    ensures
        views(records@) == extracted(project_id@, section_name@, section_value@),
{
    let mut records: Vec<DependencyRecord> = Vec::new();
    collect_external_deps(project_id, section_name, section_value, &mut records);
    assert(views(records@) =~= extracted(project_id@, section_name@, section_value@));
    records
}

/// Appends the records of a section that may be absent.
fn collect_section(
    project: &str,
    label: &str,
    section: Option<&Item>,
    entries: &mut Vec<DependencyRecord>,
)
    ensures
        views(final(entries)@) == views(old(entries)@) + section_records(
            project@,
            label@,
            match section {
                Some(v) => Some(v@),
                None => None,
            },
        ),
{
    match section {
        Some(deps) => collect_external_deps(project, label, deps, entries),
        None => {
            assert(views(entries@) =~= views(old(entries)@) + Seq::<RecordView>::empty());
        },
    }
}

/// Appends to `entries` every record of the manifest `project`: those of
/// `dependencies`, `dev-dependencies` and `build-dependencies`, then those of
/// the `dependencies` table under `workspace`.
pub fn collect_manifest_deps(project: &str, manifest: &Item, entries: &mut Vec<DependencyRecord>)
    ensures
        views(final(entries)@) == views(old(entries)@) + manifest_records(project@, manifest@),
{
    collect_section(project, "dependencies", manifest.get("dependencies"), entries);
    collect_section(project, "dev-dependencies", manifest.get("dev-dependencies"), entries);
    collect_section(project, "build-dependencies", manifest.get("build-dependencies"), entries);
    let nested = match manifest.get("workspace") {
        Some(workspace) => workspace.get("dependencies"),
        None => None,
    };
    collect_section(project, "workspace.dependencies", nested, entries);
}

/// Whether `record` stems from the entry at position `i` of a section.
pub open spec fn stems_from(
    record: RecordView,
    project: Seq<char>,
    section: Seq<char>,
    entries: Seq<(Seq<char>, Node)>,
    i: int,
) -> bool {
    0 <= i < entries.len() && entries[i].1.is_external() && record == record_of(
        project,
        section,
        entries[i],
    )
}

/// A section yields exactly the records of its external entries: every
/// record stems from such an entry, and every such entry has its record.
pub proof fn lemma_records_match_entries(
    project: Seq<char>,
    section: Seq<char>,
    entries: Seq<(Seq<char>, Node)>,
)
    ensures
        forall|r: RecordView| #[trigger]
            extract_entries(project, section, entries).contains(r) <==> exists|i: int|
                stems_from(r, project, section, entries, i),
    decreases entries.len(),
{
    let records = extract_entries(project, section, entries);
    if entries.len() == 0 {
        reveal(Seq::filter);
        assert(records =~= Seq::empty());
    } else {
        let shorter = entries.drop_last();
        let last = entries.last();
        let fewer = extract_entries(project, section, shorter);
        lemma_records_match_entries(project, section, shorter);
        lemma_extract_entries_push(project, section, shorter, last);
        assert(shorter.push(last) =~= entries);
        assert forall|r: RecordView| #[trigger] records.contains(r) implies exists|i: int|
            stems_from(r, project, section, entries, i) by {
            let k = choose|k: int| 0 <= k < records.len() && records[k] == r;
            if k < fewer.len() {
                assert(fewer[k] == r);
                assert(fewer.contains(r));
                let i = choose|i: int| stems_from(r, project, section, shorter, i);
                assert(stems_from(r, project, section, entries, i));
            } else {
                assert(stems_from(r, project, section, entries, entries.len() - 1));
            }
        }
        assert forall|r: RecordView|
            (exists|i: int| stems_from(r, project, section, entries, i)) implies #[trigger]
            records.contains(r) by {
            let i = choose|i: int| stems_from(r, project, section, entries, i);
            if i < shorter.len() {
                assert(stems_from(r, project, section, shorter, i));
                assert(fewer.contains(r));
                let k = choose|k: int| 0 <= k < fewer.len() && fewer[k] == r;
                assert(records[k] == r);
            } else {
                assert(records[records.len() - 1] == r);
            }
        }
    }
}

/// An entry that is local or inherited from the workspace contributes
/// nothing: the section yields the same records with the entry and without it.
pub proof fn lemma_excluded_entry_contributes_nothing(
    project: Seq<char>,
    section: Seq<char>,
    entries: Seq<(Seq<char>, Node)>,
    i: int,
)
    requires
        0 <= i < entries.len(),
        entries[i].1.is_local() || entries[i].1.is_workspace_inherited(),
    ensures
        extract_entries(project, section, entries) == extract_entries(
            project,
            section,
            entries.remove(i),
        ),
    decreases entries.len(),
{
    let shorter = entries.drop_last();
    let last = entries.last();
    assert(shorter.push(last) =~= entries);
    lemma_extract_entries_push(project, section, shorter, last);
    if i == entries.len() - 1 {
        assert(entries.remove(i) =~= shorter);
    } else {
        lemma_excluded_entry_contributes_nothing(project, section, shorter, i);
        assert(shorter.remove(i).push(last) =~= entries.remove(i));
        lemma_extract_entries_push(project, section, shorter.remove(i), last);
    }
}

/// No record is produced for a local entry: in a table, no record of the
/// section bears the name of an entry whose declaration is a table with a
/// `path` key, whatever the section and the project.
pub proof fn lemma_local_entry_is_left_out(
    project: Seq<char>,
    section: Seq<char>,
    entries: Seq<(Seq<char>, Node)>,
    i: int,
)
    requires
        distinct_keys(entries),
        0 <= i < entries.len(),
        entries[i].1 matches Node::Table(t) && has_key(t, "path"@),
    ensures
        forall|r: RecordView| #[trigger]
            extract_entries(project, section, entries).contains(r) ==> r.name != entries[i].0,
{
    lemma_records_match_entries(project, section, entries);
    assert forall|r: RecordView| #[trigger]
        extract_entries(project, section, entries).contains(r) implies r.name != entries[i].0 by {
        let j = choose|j: int| stems_from(r, project, section, entries, j);
        if j != i {
            assert(entries[i].0 != entries[j].0);
        }
    }
}

/// No record is produced for an entry inherited from the workspace: in a
/// table, no record of the section bears the name of an entry whose
/// declaration is a table with `workspace = true`.
pub proof fn lemma_workspace_entry_is_left_out(
    project: Seq<char>,
    section: Seq<char>,
    entries: Seq<(Seq<char>, Node)>,
    i: int,
)
    requires
        distinct_keys(entries),
        0 <= i < entries.len(),
        entries[i].1 matches Node::Table(t) && lookup(t, "workspace"@) == Some(Node::Bool(true)),
    ensures
        forall|r: RecordView| #[trigger]
            extract_entries(project, section, entries).contains(r) ==> r.name != entries[i].0,
{
    lemma_records_match_entries(project, section, entries);
    assert forall|r: RecordView| #[trigger]
        extract_entries(project, section, entries).contains(r) implies r.name != entries[i].0 by {
        let j = choose|j: int| stems_from(r, project, section, entries, j);
        if j != i {
            assert(entries[i].0 != entries[j].0);
        }
    }
}

/// A version string takes precedence over a source: a table that holds a
/// string under `version` shows that string, whether or not it also holds a
/// `git` key, and so does the record of an entry declared by it.
pub proof fn lemma_version_precedes_source(
    project: Seq<char>,
    section: Seq<char>,
    name: Seq<char>,
    t: Seq<(Seq<char>, Node)>,
    version: Seq<char>,
)
    requires
        lookup(t, "version"@) == Some(Node::Str(version)),
    ensures
        Node::Table(t).display_version() == version,
        record_of(project, section, (name, Node::Table(t))).version == version,
{
}

/// A declaration that names neither a version nor a source shows `unknown`:
/// every shape but a string and a table, and a table that holds neither a
/// `version` nor a `git` key.
pub proof fn lemma_fallback_is_unknown(decl: Node)
    requires
        !(decl is Str),
        decl matches Node::Table(t) ==> !has_key(t, "version"@) && !has_key(t, "git"@),
    ensures
        decl.display_version() == "unknown"@,
{
}

/// Every record of a section bears the project and the label it was
/// extracted under, and there is one record for each external entry.
pub proof fn lemma_records_are_labelled(
    project: Seq<char>,
    section: Seq<char>,
    entries: Seq<(Seq<char>, Node)>,
)
    ensures
        extract_entries(project, section, entries).len() == entries.filter(
            |e: (Seq<char>, Node)| e.1.is_external(),
        ).len(),
        forall|k: int|
            0 <= k < extract_entries(project, section, entries).len() ==> {
                &&& (#[trigger] extract_entries(project, section, entries)[k]).project == project
                &&& extract_entries(project, section, entries)[k].section == section
            },
{
}

/// A manifest that declares all four sections yields the records of each,
/// under its own label, in the fixed order of the sections.
pub proof fn lemma_all_sections_are_read(
    project: Seq<char>,
    manifest: Node,
    runtime: Node,
    dev: Node,
    build: Node,
    shared: Node,
)
    requires
        manifest.get("dependencies"@) == Some(runtime),
        manifest.get("dev-dependencies"@) == Some(dev),
        manifest.get("build-dependencies"@) == Some(build),
        workspace_section(manifest) == Some(shared),
    ensures
        manifest_records(project, manifest) == extracted(project, "dependencies"@, runtime)
            + extracted(project, "dev-dependencies"@, dev) + extracted(
            project,
            "build-dependencies"@,
            build,
        ) + extracted(project, "workspace.dependencies"@, shared),
{
}

} // verus!
