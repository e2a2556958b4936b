//! Trusted boundary to the `toml_edit` document representation.
//!
//! The document tree of `toml_edit` (items, tables, arrays of tables) is
//! opaque to the verifier. This module gives each of those types a
//! structural model — a [`Node`] tree, see [`crate::node`] — through
//! uninterpreted model functions, and wraps every operation the merge
//! logic needs in a small function whose contract states, over those
//! models, what the `toml_edit` source shows the operation does.
//!
//! `toml_edit` tables may hold keys bound to `Item::None` as placeholders;
//! its accessors (`get`, `get_mut`, `contains_key`, `iter`) all treat such
//! keys as absent. The table model does the same: a key bound to a none
//! item is not in the model's domain.
use vstd::prelude::*;

use crate::node::{no_missing_entries, Node};

verus! {

#[verifier::external_type_specification]
#[verifier::external_body]
pub struct ExItem(toml_edit::Item);

#[verifier::external_type_specification]
#[verifier::external_body]
pub struct ExTable(toml_edit::Table);

#[verifier::external_type_specification]
#[verifier::external_body]
pub struct ExArrayOfTables(toml_edit::ArrayOfTables);

#[verifier::external_type_specification]
#[verifier::external_body]
pub struct ExTomlError(toml_edit::TomlError);

/// The structural model of a document item.
pub uninterp spec fn item_model(i: toml_edit::Item) -> Node;

/// The structural model of a table: the models of its entries, keyed by
/// key text, without the keys bound to a none item.
pub uninterp spec fn table_model(t: toml_edit::Table) -> Map<Seq<char>, Node>;

/// The structural model of an array of tables: the models of its entries,
/// in order.
pub uninterp spec fn aot_model(a: toml_edit::ArrayOfTables) -> Seq<Node>;

/// Whether the document text `s` parses without error.
pub uninterp spec fn toml_parse_ok(s: Seq<char>) -> bool;

/// The model of the root table obtained by parsing the document text `s`.
pub uninterp spec fn toml_parse_model(s: Seq<char>) -> Map<Seq<char>, Node>;

/// The kind of a document item, mirroring the variants of its model.
#[derive(PartialEq, Eq, Structural)]
pub enum ItemKind {
    Missing,
    Scalar,
    Table,
    Array,
}

/// The kind of the node `n`.
pub open spec fn kind_of(n: Node) -> ItemKind {
    match n {
        Node::Missing => ItemKind::Missing,
        Node::Scalar(_) => ItemKind::Scalar,
        Node::Table(_) => ItemKind::Table,
        Node::Array(_) => ItemKind::Array,
    }
}

/// Relies on `toml_edit::Item::is_value`, `is_table`, `is_array_of_tables`
/// and `is_none`: exactly one of the four item variants holds.
#[verifier::external_body]
pub(crate) fn item_kind(i: &toml_edit::Item) -> (r: ItemKind)
    ensures
        r == kind_of(item_model(*i)),
{
    match i {
        toml_edit::Item::None => ItemKind::Missing,
        toml_edit::Item::Value(_) => ItemKind::Scalar,
        toml_edit::Item::Table(_) => ItemKind::Table,
        toml_edit::Item::ArrayOfTables(_) => ItemKind::Array,
    }
}

/// Relies on `toml_edit::Item::clone`: a clone is a deep copy with the
/// same structure, so it has the same model.
#[verifier::external_body]
pub(crate) fn item_clone(i: &toml_edit::Item) -> (r: toml_edit::Item)
    ensures
        item_model(r) == item_model(*i),
{
    i.clone()
}

/// Relies on `toml_edit::Table::clone`: a clone is a deep copy with the
/// same structure, so it has the same model.
#[verifier::external_body]
pub(crate) fn table_clone(t: &toml_edit::Table) -> (r: toml_edit::Table)
    ensures
        table_model(r) == table_model(*t),
{
    t.clone()
}

/// Relies on `toml_edit::Item::None` being the absence marker.
#[verifier::external_body]
pub(crate) fn item_none() -> (r: toml_edit::Item)
    ensures
        item_model(r) == Node::Missing,
{
    toml_edit::Item::None
}

/// Relies on `toml_edit::table()`: it returns an item holding an empty table.
#[verifier::external_body]
pub(crate) fn new_table_item() -> (r: toml_edit::Item)
    ensures
        item_model(r) == Node::Table(Map::<Seq<char>, Node>::empty()),
{
    toml_edit::table()
}

/// Relies on `toml_edit::Item::Table` holding exactly the wrapped table.
#[verifier::external_body]
pub(crate) fn item_from_table(t: toml_edit::Table) -> (r: toml_edit::Item)
    ensures
        item_model(r) == Node::Table(table_model(t)),
{
    toml_edit::Item::Table(t)
}

/// Relies on `toml_edit::Item::Table` holding exactly the wrapped table:
/// the body moves the table out of that variant and nothing out of any
/// other (in particular, an inline-table value is not a `Table`).
#[verifier::external_body]
pub(crate) fn item_into_table(i: toml_edit::Item) -> (r: Option<toml_edit::Table>)
    ensures
        match r {
            Some(t) => item_model(i) == Node::Table(table_model(t)),
            None => !(item_model(i) is Table),
        },
{
    match i {
        toml_edit::Item::Table(t) => Some(t),
        _ => None,
    }
}

/// Relies on `toml_edit::Item::as_table`: it returns a reference to the
/// wrapped table of a table item, and nothing for any other item.
#[verifier::external_body]
pub(crate) fn item_as_table<'a>(i: &'a toml_edit::Item) -> (r: Option<&'a toml_edit::Table>)
    ensures
        match r {
            Some(t) => item_model(*i) == Node::Table(table_model(*t)),
            None => !(item_model(*i) is Table),
        },
{
    i.as_table()
}

/// Relies on `toml_edit::Item::ArrayOfTables` holding exactly the wrapped array.
#[verifier::external_body]
pub(crate) fn item_from_aot(a: toml_edit::ArrayOfTables) -> (r: toml_edit::Item)
    ensures
        item_model(r) == Node::Array(aot_model(a)),
{
    toml_edit::Item::ArrayOfTables(a)
}

/// Relies on `toml_edit::Item::ArrayOfTables` holding exactly the wrapped
/// array: the body moves the array out of that variant and nothing out of
/// any other (in particular, an inline array value is not an
/// `ArrayOfTables`).
#[verifier::external_body]
pub(crate) fn item_into_aot(i: toml_edit::Item) -> (r: Option<toml_edit::ArrayOfTables>)
    ensures
        match r {
            Some(a) => item_model(i) == Node::Array(aot_model(a)),
            None => !(item_model(i) is Array),
        },
{
    match i {
        toml_edit::Item::ArrayOfTables(a) => Some(a),
        _ => None,
    }
}

/// Relies on `toml_edit::Item::as_array_of_tables`: it returns a reference
/// to the wrapped array of an array-of-tables item, and nothing otherwise.
#[verifier::external_body]
pub(crate) fn item_as_aot<'a>(i: &'a toml_edit::Item) -> (r: Option<&'a toml_edit::ArrayOfTables>)
    ensures
        match r {
            Some(a) => item_model(*i) == Node::Array(aot_model(*a)),
            None => !(item_model(*i) is Array),
        },
{
    i.as_array_of_tables()
}

/// Relies on `toml_edit::Table::contains_key`: it reports whether the key
/// is present with an item other than the none placeholder.
#[verifier::external_body]
pub(crate) fn table_contains(t: &toml_edit::Table, key: &str) -> (r: bool)
    ensures
        r == table_model(*t).dom().contains(key@),
{
    t.contains_key(key)
}

/// Relies on `toml_edit::Table::get`: it returns the item under the key,
/// treating a none placeholder as absent.
#[verifier::external_body]
pub(crate) fn table_get<'a>(t: &'a toml_edit::Table, key: &str) -> (r: Option<&'a toml_edit::Item>)
    ensures
        match r {
            Some(i) => table_model(*t).dom().contains(key@) && item_model(*i) == table_model(
                *t,
            )[key@],
            None => !table_model(*t).dom().contains(key@),
        },
{
    t.get(key)
}

/// Relies on `toml_edit::Table::iter`: it yields each non-placeholder key
/// exactly once.
#[verifier::external_body]
pub(crate) fn table_keys(t: &toml_edit::Table) -> (r: Vec<String>)
    ensures
        r@.map_values(|s: String| s@).no_duplicates(),
        r@.map_values(|s: String| s@).to_set() == table_model(*t).dom(),
{
    t.iter().map(|(k, _)| k.to_string()).collect()
}

/// Relies on `toml_edit::Table::entry`: assigning through an occupied entry
/// replaces the item under the key in place, and inserting into a vacant
/// entry appends the key; either way the key afterwards holds exactly the
/// given item. Storing a none item makes the key absent for every accessor.
#[verifier::external_body]
pub(crate) fn table_set(t: &mut toml_edit::Table, key: &str, item: toml_edit::Item)
    ensures
        table_model(*final(t)) == (if item_model(item) is Missing {
            table_model(*old(t)).remove(key@)
        } else {
            table_model(*old(t)).insert(key@, item_model(item))
        }),
{
    match t.entry(key) {
        toml_edit::Entry::Occupied(e) => {
            *e.into_mut() = item;
        },
        toml_edit::Entry::Vacant(v) => {
            v.insert(item);
        },
    }
}

/// Relies on `toml_edit::Table::get_mut` and `std::mem::replace`: the item
/// under the key is taken out and a none placeholder is left in its slot,
/// so the key becomes absent for every accessor while keeping its place
/// and formatting for a later [`table_set`].
#[verifier::external_body]
pub(crate) fn table_take(t: &mut toml_edit::Table, key: &str) -> (r: toml_edit::Item)
    requires
        table_model(*old(t)).dom().contains(key@),
    ensures
        table_model(*final(t)) == table_model(*old(t)).remove(key@),
        item_model(r) == table_model(*old(t))[key@],
{
    let slot = t.get_mut(key).unwrap();
    std::mem::replace(slot, toml_edit::Item::None)
}

/// Relies on `toml_edit::Table::remove`: it removes the key and returns
/// its item.
#[verifier::external_body]
pub(crate) fn table_remove(t: &mut toml_edit::Table, key: &str) -> (r: Option<toml_edit::Item>)
    ensures
        table_model(*final(t)) == table_model(*old(t)).remove(key@),
        table_model(*old(t)).dom().contains(key@) ==> r is Some && item_model(r->0)
            == table_model(*old(t))[key@],
{
    t.remove(key)
}

/// Relies on `toml_edit::ArrayOfTables::len`: the array stores exactly its
/// tables, so the length of the underlying vector is the entry count.
#[verifier::external_body]
pub(crate) fn aot_len(a: &toml_edit::ArrayOfTables) -> (r: usize)
    ensures
        r == aot_model(*a).len(),
{
    a.len()
}

/// Relies on `toml_edit::ArrayOfTables::get` and on the array's own
/// invariant, stated in its source, that every entry is a table.
#[verifier::external_body]
pub(crate) fn aot_get<'a>(a: &'a toml_edit::ArrayOfTables, index: usize) -> (r: &'a toml_edit::Table)
    requires
        index < aot_model(*a).len(),
    ensures
        Node::Table(table_model(*r)) == aot_model(*a)[index as int],
{
    a.get(index).unwrap()
}

/// Relies on `toml_edit::ArrayOfTables::push`: it appends the table at the
/// end of the array.
#[verifier::external_body]
pub(crate) fn aot_push(a: &mut toml_edit::ArrayOfTables, t: toml_edit::Table)
    ensures
        aot_model(*final(a)) == aot_model(*old(a)).push(Node::Table(table_model(t))),
{
    a.push(t)
}

/// Relies on `toml_edit::DocumentMut::parse` (through `str::parse`): parsing
/// is a function of the text alone; on success the document's root table is
/// returned. A parsed document binds no key to a none placeholder at any
/// depth — every accessor hides such keys at every level — so no table in
/// the parsed model maps a key to an absence marker.
#[verifier::external_body]
pub fn parse_toml_table(text: &str) -> (r: Result<toml_edit::Table, toml_edit::TomlError>)
    ensures
        r is Ok <==> toml_parse_ok(text@),
        r is Ok ==> table_model(r->Ok_0) == toml_parse_model(text@),
        r is Ok ==> no_missing_entries(Node::Table(toml_parse_model(text@))),
{
    match text.parse::<toml_edit::DocumentMut>() {
        Ok(mut d) => Ok(std::mem::take(d.as_table_mut())),
        Err(e) => Err(e),
    }
}

} // verus!
