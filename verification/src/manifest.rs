use vstd::prelude::*;

use crate::item::{distinct_keys, has_key, Item, Node, Table};
use crate::text::same_text;

verus! {

/// A value of the `toml` crate. Verified code sees nothing inside it and
/// reads it through the functions below.
#[verifier::external_type_specification]
#[verifier::external_body]
pub struct ExTomlValue(toml::Value);

/// A table of the `toml` crate.
#[verifier::external_type_specification]
#[verifier::external_body]
#[verifier::reject_recursive_types(K)]
#[verifier::reject_recursive_types(V)]
pub struct ExTomlMap<K, V>(toml::map::Map<K, V>);

/// What the `toml` crate makes of a manifest text: the content of the value
/// it parses the text into, or `None` where it rejects the text.
pub uninterp spec fn document_of(text: Seq<char>) -> Option<Node>;

/// What a value of the `toml` crate holds. Integers, floats and dates all
/// count as `Node::Other`.
pub uninterp spec fn content(value: toml::Value) -> Node;

/// The entries that a table of the `toml` crate holds, in the order in
/// which the table hands them out.
pub uninterp spec fn table_content(table: toml::map::Map<String, toml::Value>) -> Seq<
    (Seq<char>, Node),
>;

/// Calls the parser of the `toml` crate, `<toml::Value as FromStr>::from_str`.
/// Trusted: the outcome depends on the text alone, so that it has a name,
/// `document_of`; a rejected text gives `None`.
#[verifier::external_body]
fn parse_document(text: &str) -> (parsed: Option<toml::Value>)
    ensures
        match parsed {
            Some(value) => document_of(text@) == Some(content(value)),
            None => document_of(text@) is None,
        },
{
    text.parse::<toml::Value>().ok()
}

/// Calls `toml::Value::as_str`. Trusted: the text is handed out exactly when
/// the value is a string.
#[verifier::external_body]
fn text_of(value: &toml::Value) -> (text: Option<&str>)
    ensures
        match text {
            Some(s) => content(*value) == Node::Str(s@),
            None => !(content(*value) is Str),
        },
{
    value.as_str()
}

/// Calls `toml::Value::as_bool`. Trusted: the flag is handed out exactly
/// when the value is a boolean.
#[verifier::external_body]
fn flag_of(value: &toml::Value) -> (flag: Option<bool>)
    ensures
        match flag {
            Some(b) => content(*value) == Node::Bool(b),
            None => !(content(*value) is Bool),
        },
{
    value.as_bool()
}

/// Calls `toml::Value::as_array`. Trusted: the items are handed out exactly
/// when the value is an array, and the array holds what they hold, in order.
#[verifier::external_body]
fn items_of(value: &toml::Value) -> (items: Option<&Vec<toml::Value>>)
    ensures
        match items {
            Some(list) => content(*value) == Node::Array(
                Seq::new(list@.len(), |i: int| content(list@[i])),
            ),
            None => !(content(*value) is Array),
        },
{
    value.as_array()
}

/// Calls `toml::Value::as_table`. Trusted: the table is handed out exactly
/// when the value is a table.
#[verifier::external_body]
fn table_of(value: &toml::Value) -> (table: Option<&toml::map::Map<String, toml::Value>>)
    ensures
        match table {
            Some(t) => content(*value) == Node::Table(table_content(*t)),
            None => !(content(*value) is Table),
        },
{
    value.as_table()
}

/// Calls `toml::map::Map::iter` and collects what it hands out. Trusted: it
/// hands out every entry of the table once, and no two entries of a table
/// share a key.
#[verifier::external_body]
fn entries_of(table: &toml::map::Map<String, toml::Value>) -> (entries: Vec<
    (&String, &toml::Value),
>)
    ensures
        entries@.len() == table_content(*table).len(),
        forall|i: int|
            0 <= i < entries@.len() ==> (#[trigger] entries@[i]).0@ == table_content(*table)[i].0
                && content(*entries@[i].1) == table_content(*table)[i].1,
        forall|i: int, j: int|
            0 <= i < j < entries@.len() ==> (#[trigger] entries@[i]).0@ != (#[trigger] entries@[j]).0@,
{
    table.iter().collect()
}

/// Copies a value of the `toml` crate into an `Item`.
fn lift(value: &toml::Value) -> (lifted: Item)
    ensures
        lifted@ == content(*value),
    decreases content(*value),
{
    if let Some(s) = text_of(value) {
        return Item::String(s.to_owned());
    }
    if let Some(b) = flag_of(value) {
        return Item::Bool(b);
    }
    if let Some(list) = items_of(value) {
        let mut items: Vec<Item> = Vec::new();
        let mut i: usize = 0;
        while i < list.len()
            invariant
                i <= list@.len(),
                items@.len() == i,
                content(*value) == Node::Array(Seq::new(list@.len(), |k: int| content(list@[k]))),
                forall|k: int| 0 <= k < i ==> (#[trigger] items@[k])@ == content(list@[k]),
            decreases list@.len() - i,
        {
            let ghost whole = Seq::new(list@.len(), |k: int| content(list@[k]));
            assert(whole[i as int] == content(list@[i as int]));
            assert(decreases_to!(content(*value) => content(*value)->Array_0));
            assert(decreases_to!(whole => whole[i as int]));
            items.push(lift(&list[i]));
            i += 1;
        }
        let lifted = Item::Array(items);
        assert(lifted@->Array_0 =~= Seq::new(list@.len(), |k: int| content(list@[k])));
        return lifted;
    }
    if let Some(table) = table_of(value) {
        let entries = entries_of(table);
        let ghost whole = table_content(*table);
        assert(distinct_keys(whole)) by {
            assert forall|a: int, b: int| 0 <= a < b < whole.len() implies (#[trigger] whole[a]).0
                != (#[trigger] whole[b]).0 by {
                assert(entries@[a].0@ != entries@[b].0@);
            }
        }
        let mut copied = Table::new();
        let mut i: usize = 0;
        while i < entries.len()
            invariant
                i <= entries@.len(),
                entries@.len() == whole.len(),
                content(*value) == Node::Table(whole),
                distinct_keys(whole),
                forall|k: int|
                    0 <= k < entries@.len() ==> (#[trigger] entries@[k]).0@ == whole[k].0
                        && content(*entries@[k].1) == whole[k].1,
                copied@ == whole.take(i as int),
            decreases entries@.len() - i,
        {
            let (key, item) = entries[i];
            let ghost before = copied@;
            assert(whole[i as int].1 == content(*item));
            assert(decreases_to!(content(*value) => content(*value)->Table_0));
            assert(decreases_to!(whole => whole[i as int]));
            assert(decreases_to!(whole[i as int] => whole[i as int].1));
            copied.insert(key.clone(), lift(item));
            proof {
                assert(!has_key(before, key@)) by {
                    if has_key(before, key@) {
                        let k = choose|k: int|
                            0 <= k < before.len() && (#[trigger] before[k]).0 == key@;
                        assert(whole[k].0 != whole[i as int].0);
                    }
                }
                assert(copied@ =~= whole.take(i + 1));
            }
            i += 1;
        }
        assert(whole.take(i as int) =~= whole);
        return Item::Table(copied);
    }
    Item::Other
}

/// Whether a file of this name is a manifest: the name is `Cargo.toml`.
pub fn is_manifest_name(name: &str) -> (is_manifest: bool)
    ensures
        is_manifest == (name@ == "Cargo.toml"@),
{
    same_text(name, "Cargo.toml")
}

/// Parses the text of a manifest. A text that is not well-formed gives
/// `None`.
pub fn parse_manifest(text: &str) -> (manifest: Option<Item>)
    ensures
        manifest is Some == document_of(text@) is Some,
        manifest matches Some(m) ==> document_of(text@) == Some(m@),
{
    match parse_document(text) {
        Some(value) => Some(lift(&value)),
        None => None,
    }
}

} // verus!
