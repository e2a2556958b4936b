//! Structural model of configuration documents.
//!
//! A document is modelled as a tree of [`Node`]s: scalar values are
//! abstracted to an opaque identity, tables to finite maps from key
//! (a character sequence) to node, and arrays-of-tables to sequences
//! of nodes. Formatting details (comments, whitespace, ordering) are
//! deliberately absent from the model: two documents that differ only
//! in layout have the same model.
use vstd::prelude::*;

verus! {

/// Model of one item of a structured document.
///
/// `Missing` stands for an absence marker: a slot that holds no value.
/// A key of a `Table` map is never bound to `Missing`; deleting a key
/// is modelled by removing it from the map. A `Scalar` is any inline
/// value — a string, number, boolean, date, inline array or inline
/// table — abstracted to an opaque identity: the merge replaces such
/// values whole and never looks inside them.
pub enum Node {
    Missing,
    Scalar(int),
    Table(Map<Seq<char>, Node>),
    Array(Seq<Node>),
}

/// The content of the slot `k` after merging the table node `src` into the
/// table `d`, before absence markers are dropped.
///
/// The source table is passed as a whole node (which must be a `Table`)
/// so that the recursion visibly descends along the source tree.
pub open spec fn merged_slot(d: Map<Seq<char>, Node>, src: Node, k: Seq<char>) -> Node
    recommends
        src is Table,
    decreases src, 0int,
{
    match src {
        Node::Table(s) => if s.dom().contains(k) {
            if d.dom().contains(k) {
                merge_nodes(d[k], s[k])
            } else {
                s[k]
            }
        } else {
            d[k]
        },
        _ => d[k],
    }
}

/// The table that results from merging the table node `src` into the table
/// `d`: keys of `d` that `src` does not mention are kept; keys of `src` are
/// merged slot by slot; a slot whose merge yields an absence marker is
/// dropped.
pub open spec fn merge_table_node(d: Map<Seq<char>, Node>, src: Node) -> Map<Seq<char>, Node>
    recommends
        src is Table,
    decreases src, 1int,
{
    match src {
        Node::Table(s) => Map::new(
            |k: Seq<char>|
                if s.dom().contains(k) {
                    !(merged_slot(d, src, k) is Missing)
                } else {
                    d.dom().contains(k)
                },
            |k: Seq<char>| merged_slot(d, src, k),
        ),
        _ => d,
    }
}

/// The result of merging a source node into an occupied destination slot.
///
/// - an absence marker empties the slot;
/// - a scalar replaces the destination;
/// - a table merges recursively into a table, and replaces anything else;
/// - an array of tables is appended to an array of tables, and replaces
///   anything else.
pub open spec fn merge_nodes(dst: Node, src: Node) -> Node
    decreases src, 2int,
{
    match src {
        Node::Missing => Node::Missing,
        Node::Scalar(v) => Node::Scalar(v),
        Node::Table(s) => match dst {
            Node::Table(d) => Node::Table(merge_table_node(d, src)),
            _ => Node::Table(s),
        },
        Node::Array(s) => match dst {
            Node::Array(d) => Node::Array(d + s),
            _ => Node::Array(s),
        },
    }
}

/// The table that results from merging the table `s` into the table `d`.
pub open spec fn merge_tables(
    d: Map<Seq<char>, Node>,
    s: Map<Seq<char>, Node>,
) -> Map<Seq<char>, Node> {
    merge_table_node(d, Node::Table(s))
}

/// The result of merging a source node into a destination slot that may be
/// vacant: a vacant slot receives the source unchanged.
pub open spec fn merge_slot(dst: Option<Node>, src: Node) -> Node {
    match dst {
        Option::None => src,
        Option::Some(d) => merge_nodes(d, src),
    }
}

/// The table `d` after merging the source node `src` into its slot `k`:
/// the slot-merge result is stored under `k`, except that an absence
/// marker removes the key.
pub open spec fn table_after_slot_merge(
    d: Map<Seq<char>, Node>,
    k: Seq<char>,
    src: Node,
) -> Map<Seq<char>, Node> {
    let merged = merge_slot(if d.dom().contains(k) { Some(d[k]) } else { None }, src);
    if merged is Missing {
        d.remove(k)
    } else {
        d.insert(k, merged)
    }
}

/// Merging an empty source table leaves the destination table unchanged.
pub proof fn lemma_merge_tables_empty(d: Map<Seq<char>, Node>, s: Map<Seq<char>, Node>)
    requires
        s.dom() =~= Set::<Seq<char>>::empty(),
    ensures
        merge_tables(d, s) == d,
{
    assert(merge_tables(d, s) =~= d);
}

/// Merging the keys of a source table one slot at a time agrees with
/// merging the whole table: taking the merge of `d` with `s` restricted to
/// a key set `ks`, and then slot-merging one further key `k` of `s`, gives
/// the merge of `d` with `s` restricted to `ks` plus `k`.
pub proof fn lemma_merge_tables_step(
    d: Map<Seq<char>, Node>,
    s: Map<Seq<char>, Node>,
    ks: Set<Seq<char>>,
    k: Seq<char>,
)
    requires
        s.dom().contains(k),
        !ks.contains(k),
    ensures
        table_after_slot_merge(merge_tables(d, s.restrict(ks)), k, s[k]) == merge_tables(
            d,
            s.restrict(ks.insert(k)),
        ),
{
    let before = merge_tables(d, s.restrict(ks));
    let after = table_after_slot_merge(before, k, s[k]);
    let whole = merge_tables(d, s.restrict(ks.insert(k)));
    assert(before.dom().contains(k) == d.dom().contains(k));
    assert forall|q: Seq<char>| after.dom().contains(q) implies whole.dom().contains(q) && after[q]
        == whole[q] by {
        if q == k {
        } else {
            assert(merged_slot(d, Node::Table(s.restrict(ks)), q) == merged_slot(
                d,
                Node::Table(s.restrict(ks.insert(k))),
                q,
            ));
        }
    }
    assert forall|q: Seq<char>| whole.dom().contains(q) implies after.dom().contains(q) by {
        if q != k {
            assert(merged_slot(d, Node::Table(s.restrict(ks)), q) == merged_slot(
                d,
                Node::Table(s.restrict(ks.insert(k))),
                q,
            ));
        }
    }
    assert(after =~= whole);
}

/// Restricting a map to its whole domain gives the map back.
pub proof fn lemma_restrict_full<V>(m: Map<Seq<char>, V>)
    ensures
        m.restrict(m.dom()) == m,
{
    assert(m.restrict(m.dom()) =~= m);
}

/// Merging any source item into a vacant slot makes the slot equal to
/// the source item; an absence marker leaves the slot vacant.
pub proof fn lemma_merge_into_vacant_slot(d: Map<Seq<char>, Node>, k: Seq<char>, src: Node)
    requires
        !d.dom().contains(k),
    ensures
        !(src is Missing) ==> table_after_slot_merge(d, k, src).dom().contains(k)
            && table_after_slot_merge(d, k, src)[k] == src,
        src is Missing ==> table_after_slot_merge(d, k, src) == d,
{
    if src is Missing {
        assert(table_after_slot_merge(d, k, src) =~= d);
    }
}

/// Merging two arrays of tables concatenates them: the entry count is
/// the sum of both operands' counts, the destination's entries come
/// first unchanged, and the source's entries follow in source order.
pub proof fn lemma_merge_arrays(d: Seq<Node>, s: Seq<Node>)
    ensures
        merge_nodes(Node::Array(d), Node::Array(s)) == Node::Array(d + s),
        (d + s).len() == d.len() + s.len(),
        forall|i: int| 0 <= i < d.len() ==> (d + s)[i] == d[i],
        forall|i: int| 0 <= i < s.len() ==> (d + s)[d.len() + i] == s[i],
{
}

/// Whether no array of tables occurs anywhere in the node.
pub open spec fn array_free(n: Node) -> bool
    decreases n,
{
    match n {
        Node::Missing => true,
        Node::Scalar(_) => true,
        Node::Table(m) => forall|k: Seq<char>|
            m.dom().contains(k) ==> array_free(#[trigger] m[k]),
        Node::Array(_) => false,
    }
}

/// Whether no table anywhere in the node binds a key to an absence
/// marker. The model of every parsed document satisfies this — see the
/// parsing boundary in [`crate::toml_doc`] — since a key bound to an
/// absence marker is hidden by every accessor and so is not part of a
/// table's model at all.
pub open spec fn no_missing_entries(n: Node) -> bool
    decreases n,
{
    match n {
        Node::Missing => true,
        Node::Scalar(_) => true,
        Node::Table(m) => forall|k: Seq<char>|
            m.dom().contains(k) ==> !(#[trigger] m[k] is Missing) && no_missing_entries(m[k]),
        Node::Array(s) => forall|i: int|
            0 <= i < s.len() ==> no_missing_entries(#[trigger] s[i]),
    }
}

/// Merging an array-free table into itself changes nothing.
pub proof fn lemma_merge_self(s: Node)
    requires
        s is Table,
        array_free(s),
        no_missing_entries(s),
    ensures
        merge_nodes(s, s) == s,
    decreases s,
{
    let s0 = s->Table_0;
    let m1 = merge_tables(s0, s0);
    assert(s == Node::Table(s0));
    assert forall|q: Seq<char>| #[trigger]
        s0.dom().contains(q) implies m1.dom().contains(q) && m1[q] == s0[q] by {
        assert(!(s0[q] is Missing) && array_free(s0[q]) && no_missing_entries(s0[q]));
        match s0[q] {
            Node::Table(_) => {
                lemma_merge_self(s0[q]);
            },
            _ => {},
        }
        assert(merged_slot(s0, Node::Table(s0), q) == merge_nodes(s0[q], s0[q]));
        assert(merge_nodes(s0[q], s0[q]) == s0[q]);
    }
    assert(m1 =~= s0);
}

/// Merging an identical table source twice is the same as merging it
/// once, provided the source holds no array of tables (arrays would
/// concatenate and grow on every merge).
pub proof fn lemma_merge_tables_idempotent(d: Node, s: Node)
    requires
        s is Table,
        array_free(s),
        no_missing_entries(s),
    ensures
        merge_nodes(merge_nodes(d, s), s) == merge_nodes(d, s),
    decreases s,
{
    let s0 = s->Table_0;
    match d {
        Node::Table(dm) => {
            let m1 = merge_tables(dm, s0);
            let m2 = merge_tables(m1, s0);
            assert forall|q: Seq<char>| #[trigger]
                s0.dom().contains(q) implies m1.dom().contains(q) && merge_nodes(m1[q], s0[q])
                == m1[q] by {
                match s0[q] {
                    Node::Table(_) => {
                        if dm.dom().contains(q) {
                            lemma_merge_tables_idempotent(dm[q], s0[q]);
                        } else {
                            lemma_merge_self(s0[q]);
                        }
                    },
                    _ => {},
                }
            }
            assert(m2 =~= m1);
        },
        _ => {
            lemma_merge_self(s);
        },
    }
}

} // verus!

