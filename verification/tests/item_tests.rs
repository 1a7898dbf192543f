use depscan::item::{Item, Table};
use depscan::manifest::{is_manifest_name, parse_manifest};
use depscan::text::same_text;

fn text(s: &str) -> Item {
    Item::String(s.to_string())
}

#[test]
fn new_table_is_empty() {
    let t = Table::new();
    assert_eq!(t.len(), 0);
    assert!(!t.contains_key("a"));
    assert!(t.get("a").is_none());
}

#[test]
fn insert_appends_new_keys_in_order() {
    let mut t = Table::new();
    t.insert("b".to_string(), text("1"));
    t.insert("a".to_string(), Item::Bool(true));
    assert_eq!(t.len(), 2);
    assert_eq!(t.key_at(0), "b");
    assert_eq!(t.value_at(0), &text("1"));
    assert_eq!(t.key_at(1), "a");
    assert_eq!(t.value_at(1), &Item::Bool(true));
    assert!(t.contains_key("a"));
    assert!(!t.contains_key("c"));
    assert_eq!(t.get("b"), Some(&text("1")));
}

#[test]
fn insert_of_a_present_key_replaces_the_value_in_place() {
    let mut t = Table::new();
    t.insert("a".to_string(), text("1"));
    t.insert("b".to_string(), text("2"));
    t.insert("a".to_string(), text("3"));
    assert_eq!(t.len(), 2);
    assert_eq!(t.key_at(0), "a");
    assert_eq!(t.get("a"), Some(&text("3")));
    assert_eq!(t.key_at(1), "b");
}

#[test]
fn keys_are_compared_exactly() {
    let mut t = Table::new();
    t.insert("path".to_string(), text("x"));
    assert!(!t.contains_key("Path"));
    assert!(!t.contains_key("pat"));
    assert!(!t.contains_key("paths"));
    assert!(!t.contains_key(""));
}

#[test]
fn accessors_answer_only_for_their_shape() {
    let s = text("x");
    assert_eq!(s.as_str(), Some("x"));
    assert_eq!(s.as_bool(), None);
    assert!(s.as_table().is_none());
    assert!(s.get("x").is_none());
    let b = Item::Bool(false);
    assert_eq!(b.as_bool(), Some(false));
    assert_eq!(b.as_str(), None);
    let mut inner = Table::new();
    inner.insert("k".to_string(), text("v"));
    let t = Item::Table(inner);
    assert_eq!(t.as_table().map(|t| t.len()), Some(1));
    assert_eq!(t.get("k"), Some(&text("v")));
    assert!(t.get("missing").is_none());
    assert_eq!(Item::Other.as_str(), None);
    assert!(Item::Array(vec![text("a")]).as_table().is_none());
}

#[test]
fn same_text_compares_characters() {
    assert!(same_text("", ""));
    assert!(same_text("Cargo.toml", "Cargo.toml"));
    assert!(!same_text("Cargo.toml", "cargo.toml"));
    assert!(!same_text("a", "ab"));
    assert!(!same_text("ab", "a"));
    assert!(same_text("h\u{e9}llo \u{274c}", "h\u{e9}llo \u{274c}"));
    assert!(!same_text("h\u{e9}llo", "hello"));
}

#[test]
fn manifest_name_is_fixed() {
    assert!(is_manifest_name("Cargo.toml"));
    assert!(!is_manifest_name("Cargo.lock"));
    assert!(!is_manifest_name("cargo.toml"));
    assert!(!is_manifest_name("Cargo.toml.orig"));
    assert!(!is_manifest_name(""));
}

#[test]
fn parsed_scalars_keep_their_content() {
    let doc = parse_manifest("name = \"depscan\"\nflag = true\noff = false\ncount = 3\nratio = 0.5\nday = 1979-05-27\n").unwrap();
    assert_eq!(doc.get("name"), Some(&text("depscan")));
    assert_eq!(doc.get("flag"), Some(&Item::Bool(true)));
    assert_eq!(doc.get("off"), Some(&Item::Bool(false)));
    assert_eq!(doc.get("count"), Some(&Item::Other));
    assert_eq!(doc.get("ratio"), Some(&Item::Other));
    assert_eq!(doc.get("day"), Some(&Item::Other));
    assert_eq!(doc.as_table().map(|t| t.len()), Some(6));
}

#[test]
fn parsed_arrays_keep_their_items_in_order() {
    let doc = parse_manifest("list = [\"b\", \"a\", true, 1, [\"x\"]]\nnone = []\n").unwrap();
    assert_eq!(
        doc.get("list"),
        Some(&Item::Array(vec![
            text("b"),
            text("a"),
            Item::Bool(true),
            Item::Other,
            Item::Array(vec![text("x")]),
        ]))
    );
    assert_eq!(doc.get("none"), Some(&Item::Array(Vec::new())));
}

#[test]
fn parsed_tables_nest() {
    let doc = parse_manifest("[a.b]\nc = { d = \"e\" }\n").unwrap();
    let d = doc.get("a").and_then(|a| a.get("b")).and_then(|b| b.get("c")).and_then(|c| c.get("d"));
    assert_eq!(d, Some(&text("e")));
    let mut c = Table::new();
    c.insert("d".to_string(), text("e"));
    let mut b = Table::new();
    b.insert("c".to_string(), Item::Table(c));
    let mut a = Table::new();
    a.insert("b".to_string(), Item::Table(b));
    let mut root = Table::new();
    root.insert("a".to_string(), Item::Table(a));
    assert_eq!(doc, Item::Table(root));
}

#[test]
fn parsed_table_hands_out_every_key_once() {
    let doc = parse_manifest("[dependencies]\nzeta = \"1\"\nalpha = \"2\"\nmid = \"3\"\n").unwrap();
    let deps = doc.get("dependencies").and_then(|d| d.as_table()).unwrap();
    assert_eq!(deps.len(), 3);
    let mut keys: Vec<String> = (0..deps.len()).map(|i| deps.key_at(i).to_string()).collect();
    keys.sort();
    assert_eq!(keys, vec!["alpha".to_string(), "mid".to_string(), "zeta".to_string()]);
    assert_eq!(deps.get("zeta"), Some(&text("1")));
    assert_eq!(deps.get("alpha"), Some(&text("2")));
    assert_eq!(deps.get("mid"), Some(&text("3")));
}

#[test]
fn empty_text_is_an_empty_table() {
    assert_eq!(parse_manifest(""), Some(Item::Table(Table::new())));
}

#[test]
fn malformed_text_is_rejected() {
    assert_eq!(parse_manifest("[dependencies\nserde = \"1.0\""), None);
    assert_eq!(parse_manifest("a = "), None);
    assert_eq!(parse_manifest("a = 1\na = 2\n"), None);
    assert_eq!(parse_manifest("just words"), None);
}
