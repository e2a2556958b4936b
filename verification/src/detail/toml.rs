//! Structural merge of one document item into a slot of a table.
//!
//! The merge rules, stated over the structural model:
//!
//! - a vacant destination slot receives a deep copy of the source item;
//! - an absence marker as source empties the slot;
//! - a scalar source replaces the destination;
//! - a table source merges recursively into a table destination and
//!   replaces a destination of any other kind;
//! - an array-of-tables source is appended entry by entry after an
//!   array-of-tables destination and replaces a destination of any other
//!   kind.
use vstd::prelude::*;

use crate::node::{
    lemma_merge_tables_empty, lemma_merge_tables_step, lemma_restrict_full, merge_nodes,
    merge_tables, table_after_slot_merge, Node,
};
use crate::toml_doc::{
    aot_get, aot_len, aot_model, aot_push, item_as_aot, item_as_table, item_clone, item_from_aot,
    item_from_table, item_into_aot, item_into_table, item_kind, item_model, item_none,
    table_clone, table_contains, table_get, table_keys, table_model, table_set, table_take,
    ItemKind,
};

verus! {

/// Merges the source item `source` into the slot `key` of the table
/// `destination`, following the structural merge rules.
pub fn merge_toml(destination: &mut toml_edit::Table, key: &str, source: &toml_edit::Item)
    ensures
        table_model(*final(destination)) == table_after_slot_merge(
            table_model(*old(destination)),
            key@,
            item_model(*source),
        ),
    decreases item_model(*source), 2int,
{
    if !table_contains(destination, key) {
        table_set(destination, key, item_clone(source));
    } else {
        let dst_item = table_take(destination, key);
        let merged = merge_items(dst_item, source);
        table_set(destination, key, merged);
        proof {
            let d = table_model(*old(destination));
            let m = merge_nodes(d[key@], item_model(*source));
            if m is Missing {
                assert(d.remove(key@).remove(key@) =~= d.remove(key@));
            } else {
                assert(d.remove(key@).insert(key@, m) =~= d.insert(key@, m));
            }
        }
    }
}

/// Merges the source item `src` into the occupied destination item `dst`
/// and returns the merged item.
fn merge_items(dst: toml_edit::Item, src: &toml_edit::Item) -> (r: toml_edit::Item)
    ensures
        item_model(r) == merge_nodes(item_model(dst), item_model(*src)),
    decreases item_model(*src), 1int,
{
    match item_kind(src) {
        ItemKind::Missing => item_none(),
        ItemKind::Scalar => item_clone(src),
        ItemKind::Table => {
            match item_into_table(dst) {
                Some(mut dst_table) => {
                    let src_table = item_as_table(src).unwrap();
                    proof {
                        assert(decreases_to!(item_model(*src) => table_model(*src_table)));
                    }
                    merge_table_items(&mut dst_table, src_table);
                    item_from_table(dst_table)
                },
                None => item_clone(src),
            }
        },
        ItemKind::Array => {
            match item_into_aot(dst) {
                Some(mut dst_array) => {
                    let src_array = item_as_aot(src).unwrap();
                    merge_aot_items(&mut dst_array, src_array);
                    item_from_aot(dst_array)
                },
                None => item_clone(src),
            }
        },
    }
}

/// Merges every entry of the source table `src` into the corresponding
/// slot of the destination table `dst`.
fn merge_table_items(dst: &mut toml_edit::Table, src: &toml_edit::Table)
    ensures
        table_model(*final(dst)) == merge_tables(table_model(*old(dst)), table_model(*src)),
    decreases table_model(*src), 0int,
{
    let keys = table_keys(src);
    let ghost d0 = table_model(*old(dst));
    let ghost s = table_model(*src);
    let ghost kseq = keys@.map_values(|t: String| t@);
    proof {
        lemma_merge_tables_empty(d0, s.restrict(kseq.take(0).to_set()));
    }
    let mut i: usize = 0;
    while i < keys.len()
        invariant
            i <= keys.len(),
            keys@.map_values(|t: String| t@) == kseq,
            kseq.no_duplicates(),
            kseq.to_set() == s.dom(),
            table_model(*src) == s,
            table_model(*dst) == merge_tables(d0, s.restrict(kseq.take(i as int).to_set())),
        decreases keys.len() - i,
    {
        let ghost k = kseq[i as int];
        let ghost processed = kseq.take(i as int).to_set();
        proof {
            assert(kseq.to_set().contains(k));
            assert(!processed.contains(k)) by {
                if processed.contains(k) {
                    let j = choose|j: int| 0 <= j < i && #[trigger] kseq.take(i as int)[j] == k;
                    assert(kseq[j] == kseq[i as int]);
                }
            }
        }
        let key = &keys[i];
        let src_item = table_get(src, key.as_str()).unwrap();
        proof {
            broadcast use vstd::map::group_map_axioms;
            broadcast use vstd::seq_lib::seq_to_set_is_finite;

            assert(s.dom().finite());
            assert(decreases_to!(s => s[k]));
        }
        merge_toml(dst, key.as_str(), src_item);
        proof {
            lemma_merge_tables_step(d0, s, processed, k);
            assert(processed.insert(k) =~= kseq.take(i as int + 1).to_set()) by {
                assert forall|q: Seq<char>|
                    kseq.take(i as int + 1).to_set().contains(q) implies processed.insert(
                    k,
                ).contains(q) by {
                    let j = choose|j: int|
                        0 <= j < i + 1 && #[trigger] kseq.take(i as int + 1)[j] == q;
                    if j < i {
                        assert(kseq.take(i as int)[j] == q);
                    }
                }
                assert forall|q: Seq<char>|
                    processed.insert(k).contains(q) implies kseq.take(
                    i as int + 1,
                ).to_set().contains(q) by {
                    if processed.contains(q) {
                        let j = choose|j: int| 0 <= j < i && #[trigger] kseq.take(i as int)[j] == q;
                        assert(kseq.take(i as int + 1)[j] == q);
                    } else {
                        assert(kseq.take(i as int + 1)[i as int] == q);
                    }
                }
            }
        }
        i = i + 1;
    }
    proof {
        assert(kseq.take(keys@.len() as int) =~= kseq);
        lemma_restrict_full(s);
    }
}

/// Appends a copy of every entry of the source array `src` after the
/// existing entries of the destination array `dst`.
fn merge_aot_items(dst: &mut toml_edit::ArrayOfTables, src: &toml_edit::ArrayOfTables)
    ensures
        aot_model(*final(dst)) == aot_model(*old(dst)) + aot_model(*src),
{
    let n = aot_len(src);
    let ghost a0 = aot_model(*old(dst));
    let ghost sv = aot_model(*src);
    let mut i: usize = 0;
    while i < n
        invariant
            i <= n,
            n == sv.len(),
            aot_model(*src) == sv,
            aot_model(*dst) == a0 + sv.take(i as int),
        decreases n - i,
    {
        let t = aot_get(src, i);
        aot_push(dst, table_clone(t));
        proof {
            assert(a0 + sv.take(i as int + 1) =~= (a0 + sv.take(i as int)).push(sv[i as int]));
        }
        i = i + 1;
    }
    proof {
        assert(a0 + sv.take(n as int) =~= a0 + sv);
    }
}

} // verus!
