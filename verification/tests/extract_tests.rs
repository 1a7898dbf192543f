use depscan::extract::{collect_external_deps, collect_manifest_deps, extract};
use depscan::item::{Item, Table};
use depscan::manifest::parse_manifest;
use depscan::record::DependencyRecord;

fn rows(records: Vec<DependencyRecord>) -> Vec<(String, String, String, String)> {
    records.into_iter().map(|r| (r.project, r.section, r.name, r.version)).collect()
}

fn scan(project: &str, text: &str) -> Vec<(String, String, String, String)> {
    let manifest = parse_manifest(text).expect("well-formed manifest");
    let mut records: Vec<DependencyRecord> = Vec::new();
    collect_manifest_deps(project, &manifest, &mut records);
    rows(records)
}

fn row(project: &str, section: &str, name: &str, version: &str) -> (String, String, String, String) {
    (project.to_string(), section.to_string(), name.to_string(), version.to_string())
}

fn text(s: &str) -> Item {
    Item::String(s.to_string())
}

fn table(entries: Vec<(&str, Item)>) -> Table {
    let mut t = Table::new();
    for (key, value) in entries {
        t.insert(key.to_string(), value);
    }
    t
}

fn version_of(declaration: Item) -> Vec<String> {
    let section = Item::Table(table(vec![("dep", declaration)]));
    extract("proj", "dependencies", &section).into_iter().map(|r| r.version).collect()
}

#[test]
fn registry_and_dev_entries_are_kept_and_local_ones_dropped() {
    let text = "[dependencies]\nserde = \"1.0\"\nlocal_lib = { path = \"../local_lib\" }\n\n[dev-dependencies]\nmockall = \"0.11\"\n";
    assert_eq!(
        scan("proj", text),
        vec![
            row("proj", "dependencies", "serde", "1.0"),
            row("proj", "dev-dependencies", "mockall", "0.11"),
        ]
    );
}

#[test]
fn git_source_stands_in_for_a_missing_version() {
    let text = "[dependencies]\ntokio = { git = \"https://example.com/tokio\" }\n";
    assert_eq!(
        scan("proj", text),
        vec![row("proj", "dependencies", "tokio", "https://example.com/tokio")]
    );
}

#[test]
fn path_entries_are_dropped_in_every_section() {
    let text = "[dependencies]\na = { path = \"../a\" }\n[dev-dependencies]\nb = { path = \"../b\", version = \"1\" }\n[build-dependencies]\nc = { path = \"\" }\n[workspace.dependencies]\nd = { path = \"../d\", git = \"https://example.com/d\" }\n";
    assert_eq!(scan("proj", text), Vec::new());
}

#[test]
fn path_key_counts_whatever_it_holds() {
    assert_eq!(version_of(Item::Table(table(vec![("path", Item::Bool(false))]))), Vec::<String>::new());
    assert_eq!(version_of(Item::Table(table(vec![("path", Item::Other)]))), Vec::<String>::new());
}

#[test]
fn workspace_true_entries_are_dropped() {
    let text = "[dependencies]\nserde = { workspace = true }\nrand = { workspace = true, version = \"0.8\" }\n";
    assert_eq!(scan("proj", text), Vec::new());
}

#[test]
fn workspace_key_only_counts_when_it_is_true() {
    let text = "[dependencies]\na = { workspace = false, version = \"1\" }\nb = { workspace = \"true\", version = \"2\" }\nc = { workspace = false }\n";
    assert_eq!(
        scan("proj", text),
        vec![
            row("proj", "dependencies", "a", "1"),
            row("proj", "dependencies", "b", "2"),
            row("proj", "dependencies", "c", "unknown"),
        ]
    );
}

#[test]
fn version_wins_over_git() {
    let text = "[dependencies]\ntokio = { git = \"https://example.com/tokio\", version = \"1.2\" }\n";
    assert_eq!(scan("proj", text), vec![row("proj", "dependencies", "tokio", "1.2")]);
}

#[test]
fn version_that_is_no_string_hides_git() {
    let text = "[dependencies]\ntokio = { git = \"https://example.com/tokio\", version = 1 }\n";
    assert_eq!(scan("proj", text), vec![row("proj", "dependencies", "tokio", "unknown")]);
}

#[test]
fn shapes_without_version_or_source_are_unknown() {
    assert_eq!(version_of(Item::Array(vec![text("1.0")])), vec!["unknown".to_string()]);
    assert_eq!(version_of(Item::Array(Vec::new())), vec!["unknown".to_string()]);
    assert_eq!(version_of(Item::Other), vec!["unknown".to_string()]);
    assert_eq!(version_of(Item::Bool(true)), vec!["unknown".to_string()]);
    assert_eq!(version_of(Item::Table(Table::new())), vec!["unknown".to_string()]);
    assert_eq!(
        version_of(Item::Table(table(vec![("features", Item::Array(vec![text("std")]))]))),
        vec!["unknown".to_string()]
    );
    assert_eq!(
        version_of(Item::Table(table(vec![("git", Item::Bool(true))]))),
        vec!["unknown".to_string()]
    );
}

#[test]
fn parsed_array_and_number_declarations_are_unknown() {
    let text = "[dependencies]\na = [\"1.0\"]\nb = 3\nc = 1.5\nd = 1979-05-27\n";
    assert_eq!(
        scan("proj", text),
        vec![
            row("proj", "dependencies", "a", "unknown"),
            row("proj", "dependencies", "b", "unknown"),
            row("proj", "dependencies", "c", "unknown"),
            row("proj", "dependencies", "d", "unknown"),
        ]
    );
}

#[test]
fn bare_string_is_the_version() {
    assert_eq!(version_of(text("^1.2.3")), vec!["^1.2.3".to_string()]);
    assert_eq!(version_of(text("")), vec!["".to_string()]);
}

#[test]
fn all_four_sections_are_read_in_order() {
    let text = "[workspace.dependencies]\nshared = \"4\"\ninner = { path = \"crates/inner\" }\n\n[build-dependencies]\ncc = \"3\"\n\n[dev-dependencies]\nmockall = \"2\"\nhelper = { workspace = true }\n\n[dependencies]\nserde = \"1\"\n";
    assert_eq!(
        scan("root/Cargo.toml", text),
        vec![
            row("root/Cargo.toml", "dependencies", "serde", "1"),
            row("root/Cargo.toml", "dev-dependencies", "mockall", "2"),
            row("root/Cargo.toml", "build-dependencies", "cc", "3"),
            row("root/Cargo.toml", "workspace.dependencies", "shared", "4"),
        ]
    );
}

#[test]
fn other_sections_are_not_read() {
    let text = "[package]\nname = \"x\"\nversion = \"0.1.0\"\n\n[target.dependencies]\na = \"1\"\n\n[features]\ndefault = []\n";
    assert_eq!(scan("proj", text), Vec::new());
}

#[test]
fn manifest_without_sections_yields_nothing() {
    assert_eq!(scan("proj", ""), Vec::new());
}

#[test]
fn section_that_is_no_table_yields_nothing() {
    assert_eq!(rows(extract("proj", "dependencies", &text("serde"))), Vec::new());
    assert_eq!(rows(extract("proj", "dependencies", &Item::Array(Vec::new()))), Vec::new());
    assert_eq!(rows(extract("proj", "dependencies", &Item::Other)), Vec::new());
    assert_eq!(scan("proj", "dependencies = 3\nworkspace = \"w\"\n"), Vec::new());
    assert_eq!(scan("proj", "[workspace]\ndependencies = [1, 2]\n"), Vec::new());
}

#[test]
fn manifest_that_is_no_table_yields_nothing() {
    let mut records: Vec<DependencyRecord> = Vec::new();
    collect_manifest_deps("proj", &text("x"), &mut records);
    assert!(records.is_empty());
}

#[test]
fn records_are_appended_after_what_is_there() {
    let mut records = vec![DependencyRecord::new("old", "dependencies", "first", "0.1".to_string())];
    let section = Item::Table(table(vec![("serde", text("1.0")), ("rand", text("0.8"))]));
    collect_external_deps("new", "dev-dependencies", &section, &mut records);
    assert_eq!(
        rows(records),
        vec![
            row("old", "dependencies", "first", "0.1"),
            row("new", "dev-dependencies", "serde", "1.0"),
            row("new", "dev-dependencies", "rand", "0.8"),
        ]
    );
}

#[test]
fn records_follow_the_order_of_the_table() {
    let section = Item::Table(table(vec![("zeta", text("1")), ("alpha", text("2")), ("mid", text("3"))]));
    let names: Vec<String> = extract("p", "s", &section).into_iter().map(|r| r.name).collect();
    assert_eq!(names, vec!["zeta".to_string(), "alpha".to_string(), "mid".to_string()]);
}

#[test]
fn section_label_is_kept_verbatim() {
    let section = Item::Table(table(vec![("serde", text("1"))]));
    assert_eq!(rows(extract("p", "any label", &section)), vec![row("p", "any label", "serde", "1")]);
}

#[test]
fn classification_of_declarations() {
    let local = Item::Table(table(vec![("path", text("../x"))]));
    assert!(local.is_local());
    assert!(!local.is_workspace_inherited());
    let inherited = Item::Table(table(vec![("workspace", Item::Bool(true))]));
    assert!(!inherited.is_local());
    assert!(inherited.is_workspace_inherited());
    assert!(!text("path").is_local());
    assert!(!Item::Bool(true).is_workspace_inherited());
    assert_eq!(local.display_version(), "unknown");
}
