use vstd::prelude::*;

verus! {

/// One externally resolved dependency, as one manifest declares it.
#[derive(Clone, Debug, PartialEq, Eq)]
pub struct DependencyRecord {
    /// The manifest that declares it.
    pub project: String,
    /// The section it is declared under.
    pub section: String,
    /// The key it is declared under.
    pub name: String,
    /// The requested version or source, or `unknown` where the declaration
    /// names neither.
    pub version: String,
}

/// The four texts of a record.
pub struct RecordView {
    pub project: Seq<char>,
    pub section: Seq<char>,
    pub name: Seq<char>,
    pub version: Seq<char>,
}

impl View for DependencyRecord {
    type V = RecordView;

    open spec fn view(&self) -> RecordView {
        RecordView {
            project: self.project@,
            section: self.section@,
            name: self.name@,
            version: self.version@,
        }
    }
}

/// The records of a list, each by its view, in the same order.
pub open spec fn views(records: Seq<DependencyRecord>) -> Seq<RecordView> {
    records.map_values(|r: DependencyRecord| r@)
}

impl DependencyRecord {
    /// A record of the four given texts.
    pub fn new(project: &str, section: &str, name: &str, version: String) -> (r: DependencyRecord)
        ensures
            r@ == (RecordView {
                project: project@,
                section: section@,
                name: name@,
                version: version@,
            }),
    {
        DependencyRecord {
            project: project.to_owned(),
            section: section.to_owned(),
            name: name.to_owned(),
            version,
        }
    }
}

} // verus!
