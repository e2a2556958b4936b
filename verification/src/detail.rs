//! Locating and merging pinned dependency sections in a manifest.
//!
//! A pins document may carry dependency overrides in its `dependencies`
//! and `build-dependencies` sections, and in the same two sections nested
//! under `target.<selector>`. Each such section is merged into the same
//! place of the manifest with the structural merge of [`toml`].
use vstd::prelude::*;

use crate::node::{table_after_slot_merge, Node};
use crate::toml_doc::{
    item_as_table, item_from_table, item_into_table, table_clone, table_contains, table_get,
    table_keys, table_model, table_set, table_take, new_table_item,
};
use crate::detail::toml::merge_toml;

pub mod toml;

verus! {

/// Name of the manifest section holding package metadata.
pub const PACKAGE_SECTION_NAME: &'static str = "package";

/// Name of the manifest section holding dependencies.
pub const DEPENDENCIES_SECTION_NAME: &'static str = "dependencies";

/// Name of the manifest section holding build dependencies.
pub const BUILD_DEPENDENCIES_SECTION_NAME: &'static str = "build-dependencies";

/// Name of the manifest section holding target-conditional sections.
pub const TARGET_SECTION_NAME: &'static str = "target";

/// Whether the pins table `p` carries a dependencies or build-dependencies
/// section: exactly then does merging it report a change.
pub open spec fn deps_changed(p: Map<Seq<char>, Node>) -> bool {
    p.dom().contains("dependencies"@) || p.dom().contains("build-dependencies"@)
}

/// The table `m` after merging the dependencies and build-dependencies
/// sections of the pins table `p` into it, in that order.
pub open spec fn deps_sections_merged(
    m: Map<Seq<char>, Node>,
    p: Map<Seq<char>, Node>,
) -> Map<Seq<char>, Node> {
    let m1 = if p.dom().contains("dependencies"@) {
        table_after_slot_merge(m, "dependencies"@, p["dependencies"@])
    } else {
        m
    };
    if p.dom().contains("build-dependencies"@) {
        table_after_slot_merge(m1, "build-dependencies"@, p["build-dependencies"@])
    } else {
        m1
    }
}

/// The entry of a target table after the dependency sections of the pins
/// sub-table `sub` are merged into it: a table receives the section merge;
/// anything else is replaced by the pins sub-table itself.
pub open spec fn target_sub_merged(cur: Node, sub: Map<Seq<char>, Node>) -> Node {
    match cur {
        Node::Table(dk) => Node::Table(deps_sections_merged(dk, sub)),
        _ => Node::Table(sub),
    }
}

/// Whether merging the pins sub-table `sub` under the target selector `k`
/// reports a change against the target table `d`.
pub open spec fn target_key_changed(
    d: Map<Seq<char>, Node>,
    k: Seq<char>,
    sub: Map<Seq<char>, Node>,
) -> bool {
    if d.dom().contains(k) && !(d[k] is Table) {
        true
    } else {
        deps_changed(sub)
    }
}

/// The target table `d` after every table-valued entry of the pins target
/// table `p` is merged into the entry of the same selector; entries of `p`
/// that are not tables are ignored.
pub open spec fn target_table_merged(
    d: Map<Seq<char>, Node>,
    p: Map<Seq<char>, Node>,
) -> Map<Seq<char>, Node> {
    Map::new(
        |k: Seq<char>| d.dom().contains(k) || (p.dom().contains(k) && p[k] is Table),
        |k: Seq<char>|
            if p.dom().contains(k) && p[k] is Table {
                target_sub_merged(
                    if d.dom().contains(k) {
                        d[k]
                    } else {
                        Node::Table(Map::empty())
                    },
                    p[k]->Table_0,
                )
            } else {
                d[k]
            },
    )
}

/// Whether merging the pins target table `p` into the target table `d`
/// reports a change: some table-valued entry of `p` does.
pub open spec fn target_table_changed(d: Map<Seq<char>, Node>, p: Map<Seq<char>, Node>) -> bool {
    exists|k: Seq<char>|
        #[trigger] p.dom().contains(k) && p[k] is Table && target_key_changed(d, k, p[k]->Table_0)
}

/// The manifest table `m` after the whole pins table `p` is merged into
/// it: first the two flat dependency sections, then, if `p` has a
/// table-valued `target` section, each of its table-valued entries into
/// the manifest's `target` table (created empty when absent, replaced when
/// not a table).
pub open spec fn msrv_merge_model(
    m: Map<Seq<char>, Node>,
    p: Map<Seq<char>, Node>,
) -> Map<Seq<char>, Node> {
    let m2 = deps_sections_merged(m, p);
    if p.dom().contains("target"@) && p["target"@] is Table {
        let pt = p["target"@]->Table_0;
        let m3 = if m2.dom().contains("target"@) {
            m2
        } else {
            m2.insert("target"@, Node::Table(Map::empty()))
        };
        match m3["target"@] {
            Node::Table(mt) => m3.insert("target"@, Node::Table(target_table_merged(mt, pt))),
            _ => m3.insert("target"@, Node::Table(pt)),
        }
    } else {
        m2
    }
}

/// Whether merging the pins table `p` into the manifest table `m` reports
/// a change.
pub open spec fn msrv_merge_changed(m: Map<Seq<char>, Node>, p: Map<Seq<char>, Node>) -> bool {
    ||| deps_changed(p)
    ||| (p.dom().contains("target"@) && p["target"@] is Table && {
        let pt = p["target"@]->Table_0;
        let m2 = deps_sections_merged(m, p);
        if m2.dom().contains("target"@) {
            match m2["target"@] {
                Node::Table(mt) => target_table_changed(mt, pt),
                _ => true,
            }
        } else {
            target_table_changed(Map::empty(), pt)
        }
    })
}

/// Merges the pinned dependency sections of `msrv_dependencies` into
/// `manifest` and reports whether anything was merged.
pub fn merge_msrv_dependencies(
    manifest: &mut toml_edit::Table,
    msrv_dependencies: &toml_edit::Table,
) -> (changed: bool)
    ensures
        table_model(*final(manifest)) == msrv_merge_model(
            table_model(*old(manifest)),
            table_model(*msrv_dependencies),
        ),
        changed == msrv_merge_changed(
            table_model(*old(manifest)),
            table_model(*msrv_dependencies),
        ),
{
    let mut changed = merge_dependencies_sections(manifest, msrv_dependencies);
    let ghost m2 = table_model(*manifest);
    match table_get(msrv_dependencies, TARGET_SECTION_NAME) {
        None => {},
        Some(target_item) => {
            match item_as_table(target_item) {
                None => {},
                Some(src_target) => {
                    if !table_contains(manifest, TARGET_SECTION_NAME) {
                        table_set(manifest, TARGET_SECTION_NAME, new_table_item());
                    }
                    let ghost m3 = table_model(*manifest);
                    let dst_item = table_take(manifest, TARGET_SECTION_NAME);
                    match item_into_table(dst_item) {
                        Some(mut dst_target) => {
                            let c = merge_target_table(&mut dst_target, src_target);
                            table_set(
                                manifest,
                                TARGET_SECTION_NAME,
                                item_from_table(dst_target),
                            );
                            changed = c || changed;
                            proof {
                                assert(table_model(*manifest) =~= m3.insert(
                                    "target"@,
                                    Node::Table(
                                        target_table_merged(
                                            m3["target"@]->Table_0,
                                            table_model(*src_target),
                                        ),
                                    ),
                                ));
                            }
                        },
                        None => {
                            table_set(
                                manifest,
                                TARGET_SECTION_NAME,
                                item_from_table(table_clone(src_target)),
                            );
                            changed = true;
                            proof {
                                assert(table_model(*manifest) =~= m3.insert(
                                    "target"@,
                                    Node::Table(table_model(*src_target)),
                                ));
                            }
                        },
                    }
                },
            }
        },
    }
    changed
}

/// Merges every table-valued entry of the pins target table `src` into the
/// entry of the same selector in the manifest target table `dst`, and
/// reports whether any entry reported a change.
fn merge_target_table(dst: &mut toml_edit::Table, src: &toml_edit::Table) -> (changed: bool)
    ensures
        table_model(*final(dst)) == target_table_merged(
            table_model(*old(dst)),
            table_model(*src),
        ),
        changed == target_table_changed(table_model(*old(dst)), table_model(*src)),
{
    let keys = table_keys(src);
    let ghost d0 = table_model(*old(dst));
    let ghost s = table_model(*src);
    let ghost kseq = keys@.map_values(|t: String| t@);
    proof {
        lemma_target_table_empty(d0, s.restrict(kseq.take(0).to_set()));
    }
    let mut changed = false;
    let mut i: usize = 0;
    while i < keys.len()
        invariant
            i <= keys.len(),
            keys@.map_values(|t: String| t@) == kseq,
            kseq.no_duplicates(),
            kseq.to_set() == s.dom(),
            table_model(*src) == s,
            table_model(*dst) == target_table_merged(d0, s.restrict(kseq.take(i as int).to_set())),
            changed == target_table_changed(d0, s.restrict(kseq.take(i as int).to_set())),
        decreases keys.len() - i,
    {
        let ghost k = kseq[i as int];
        let ghost processed = kseq.take(i as int).to_set();
        proof {
            assert(kseq.to_set().contains(k));
            assert(!processed.contains(k)) by {
                if processed.contains(k) {
                    let j = choose|j: int| 0 <= j < i && #[trigger] kseq.take(i as int)[j] == k;
                    assert(kseq[j] == kseq[i as int]);
                }
            }
        }
        let key = &keys[i];
        let sub_item = table_get(src, key.as_str()).unwrap();
        match item_as_table(sub_item) {
            None => {},
            Some(sub_table) => {
                if !table_contains(dst, key.as_str()) {
                    table_set(dst, key.as_str(), new_table_item());
                }
                let entry_item = table_take(dst, key.as_str());
                match item_into_table(entry_item) {
                    Some(mut entry_table) => {
                        let c = merge_dependencies_sections(&mut entry_table, sub_table);
                        table_set(dst, key.as_str(), item_from_table(entry_table));
                        changed = c || changed;
                    },
                    None => {
                        table_set(dst, key.as_str(), item_from_table(table_clone(sub_table)));
                        changed = true;
                    },
                }
            },
        }
        proof {
            lemma_target_table_step(d0, s, processed, k);
            assert(processed.insert(k) =~= kseq.take(i as int + 1).to_set()) by {
                assert forall|q: Seq<char>|
                    kseq.take(i as int + 1).to_set().contains(q) implies processed.insert(
                    k,
                ).contains(q) by {
                    let j = choose|j: int|
                        0 <= j < i + 1 && #[trigger] kseq.take(i as int + 1)[j] == q;
                    if j < i {
                        assert(kseq.take(i as int)[j] == q);
                    }
                }
                assert forall|q: Seq<char>|
                    processed.insert(k).contains(q) implies kseq.take(
                    i as int + 1,
                ).to_set().contains(q) by {
                    if processed.contains(q) {
                        let j = choose|j: int| 0 <= j < i && #[trigger] kseq.take(i as int)[j] == q;
                        assert(kseq.take(i as int + 1)[j] == q);
                    } else {
                        assert(kseq.take(i as int + 1)[i as int] == q);
                    }
                }
            }
            assert(table_model(*dst) == target_table_merged(
                d0,
                s.restrict(kseq.take(i as int + 1).to_set()),
            ));
        }
        i = i + 1;
    }
    proof {
        assert(kseq.take(keys@.len() as int) =~= kseq);
        assert(s.restrict(s.dom()) =~= s);
    }
    changed
}

/// Merges the dependencies and build-dependencies sections of the pins
/// table `msrv_dependencies` into `manifest`, in that order, and reports
/// whether either section was present.
fn merge_dependencies_sections(
    manifest: &mut toml_edit::Table,
    msrv_dependencies: &toml_edit::Table,
) -> (changed: bool)
    ensures
        table_model(*final(manifest)) == deps_sections_merged(
            table_model(*old(manifest)),
            table_model(*msrv_dependencies),
        ),
        changed == deps_changed(table_model(*msrv_dependencies)),
{
    let mut changed = false;
    match table_get(msrv_dependencies, DEPENDENCIES_SECTION_NAME) {
        None => {},
        Some(src_section) => {
            merge_toml(manifest, DEPENDENCIES_SECTION_NAME, src_section);
            changed = true;
        },
    }
    match table_get(msrv_dependencies, BUILD_DEPENDENCIES_SECTION_NAME) {
        None => {},
        Some(src_section) => {
            merge_toml(manifest, BUILD_DEPENDENCIES_SECTION_NAME, src_section);
            changed = true;
        },
    }
    changed
}

/// Merging an empty pins target table leaves the target table unchanged
/// and reports no change.
proof fn lemma_target_table_empty(d: Map<Seq<char>, Node>, p: Map<Seq<char>, Node>)
    requires
        p.dom() =~= Set::<Seq<char>>::empty(),
    ensures
        target_table_merged(d, p) == d,
        !target_table_changed(d, p),
{
    assert(target_table_merged(d, p) =~= d);
    if target_table_changed(d, p) {
        let k = choose|k: Seq<char>|
            #[trigger] p.dom().contains(k) && p[k] is Table && target_key_changed(
                d,
                k,
                p[k]->Table_0,
            );
        assert(p.dom().contains(k));
    }
}

/// Merging the entries of a pins target table one selector at a time
/// agrees with merging the whole table, for both the resulting table and
/// the change report.
proof fn lemma_target_table_step(
    d: Map<Seq<char>, Node>,
    s: Map<Seq<char>, Node>,
    ks: Set<Seq<char>>,
    k: Seq<char>,
)
    requires
        s.dom().contains(k),
        !ks.contains(k),
    ensures
        s[k] is Table ==> target_table_merged(d, s.restrict(ks.insert(k)))
            == target_table_merged(d, s.restrict(ks)).insert(
            k,
            target_sub_merged(
                if d.dom().contains(k) {
                    d[k]
                } else {
                    Node::Table(Map::empty())
                },
                s[k]->Table_0,
            ),
        ),
        !(s[k] is Table) ==> target_table_merged(d, s.restrict(ks.insert(k)))
            == target_table_merged(d, s.restrict(ks)),
        target_table_changed(d, s.restrict(ks.insert(k))) == (target_table_changed(
            d,
            s.restrict(ks),
        ) || (s[k] is Table && target_key_changed(d, k, s[k]->Table_0))),
        target_table_merged(d, s.restrict(ks)).dom().contains(k) == d.dom().contains(k),
        target_table_merged(d, s.restrict(ks)).dom().contains(k) ==> target_table_merged(
            d,
            s.restrict(ks),
        )[k] == d[k],
{
    let before = target_table_merged(d, s.restrict(ks));
    let whole = target_table_merged(d, s.restrict(ks.insert(k)));
    if s[k] is Table {
        assert(whole =~= before.insert(
            k,
            target_sub_merged(
                if d.dom().contains(k) {
                    d[k]
                } else {
                    Node::Table(Map::empty())
                },
                s[k]->Table_0,
            ),
        ));
    } else {
        assert(whole =~= before);
    }
    let changed_before = target_table_changed(d, s.restrict(ks));
    let changed_whole = target_table_changed(d, s.restrict(ks.insert(k)));
    let this_changed = s[k] is Table && target_key_changed(d, k, s[k]->Table_0);
    if changed_before {
        let w = choose|q: Seq<char>|
            #[trigger] s.restrict(ks).dom().contains(q) && s.restrict(ks)[q] is Table
                && target_key_changed(d, q, s.restrict(ks)[q]->Table_0);
        assert(s.restrict(ks.insert(k)).dom().contains(w));
        assert(changed_whole);
    }
    if this_changed {
        assert(s.restrict(ks.insert(k)).dom().contains(k));
        assert(changed_whole);
    }
    if changed_whole && !changed_before && !this_changed {
        let w = choose|q: Seq<char>|
            #[trigger] s.restrict(ks.insert(k)).dom().contains(q) && s.restrict(ks.insert(k))[q]
                is Table && target_key_changed(d, q, s.restrict(ks.insert(k))[q]->Table_0);
        if w == k {
        } else {
            assert(s.restrict(ks).dom().contains(w));
        }
    }
}

} // verus!
