//! Preparing package manifests for checking a minimum supported toolchain
//! version.
//!
//! The crate offers three operations on a manifest document:
//!
//! - removing the version-pin field from its package section
//!   ([`remove_rust_version`]);
//! - merging a sidecar document of pinned dependency overrides into it
//!   ([`maybe_merge_msrv_dependencies`]);
//! - planning the backup of the manifest (and of a companion lockfile)
//!   before it is overwritten, and the restore that undoes it
//!   ([`backup_manifest`], [`maybe_restore_manifest`]).
//!
//! Every operation is specified against a structural model of the
//! documents and of the file system; the planners return the file
//! operations to perform instead of performing them, so that the
//! surrounding binary owns all I/O.
use vstd::prelude::*;

pub mod backup;
pub mod detail;
pub mod node;
pub mod paths;
pub mod result;
pub mod toml_doc;

pub use backup::backup_manifest;
pub use backup::maybe_restore_manifest;
pub use backup::FsOp;
pub use result::Error;
pub use result::Result;

use crate::detail::{
    merge_msrv_dependencies, msrv_merge_changed, msrv_merge_model, PACKAGE_SECTION_NAME,
};
use crate::node::Node;
use crate::toml_doc::{
    item_as_table, item_from_table, item_into_table, parse_toml_table, table_contains, table_get,
    table_model, table_remove, table_set, table_take, toml_parse_model, toml_parse_ok,
};

verus! {

/// Default suffix appended to a file name to derive its backup file name.
pub const DEFAULT_MANIFEST_BACKUP_SUFFIX: &'static str = ".msrv-prep.bak";

/// Field of the `package` section of a manifest that pins the minimum
/// supported toolchain version.
pub const RUST_VERSION_SPECIFIER: &'static str = "rust-version";

/// Extension of a lockfile, derived from its manifest's file name.
pub const LOCKFILE_EXT: &'static str = "lock";

/// Default file name of a manifest.
pub const DEFAULT_MANIFEST_FILE_NAME: &'static str = "Cargo.toml";

/// Greeting used by the companion placeholder binary crate.
pub fn hello_world_in_bin() -> (r: &'static str)
    ensures
        r@ == "Hello, World in bin!"@,
{
    "Hello, World in bin!"
}

/// The sequences of `names` joined in order, with `sep` between
/// consecutive entries.
pub open spec fn joined(names: Seq<Seq<char>>, sep: Seq<char>) -> Seq<char>
    decreases names.len(),
{
    if names.len() == 0 {
        Seq::<char>::empty()
    } else if names.len() == 1 {
        names[0]
    } else {
        joined(names.drop_last(), sep) + sep + names.last()
    }
}

/// Joins package names with a comma and a space between them.
pub fn join_package_names(names: &Vec<String>) -> (r: String)
    ensures
        r@ == joined(names@.map_values(|s: String| s@), ", "@),
{
    let ghost nseq = names@.map_values(|s: String| s@);
    let mut out = String::new();
    let mut i: usize = 0;
    while i < names.len()
        invariant
            i <= names.len(),
            names@.map_values(|s: String| s@) == nseq,
            out@ == joined(nseq.take(i as int), ", "@),
        decreases names.len() - i,
    {
        if i > 0 {
            out.append(", ");
        }
        out.append(names[i].as_str());
        proof {
            let upto = nseq.take(i as int + 1);
            assert(upto.drop_last() =~= nseq.take(i as int));
            assert(upto.last() == nseq[i as int]);
            if i == 0 {
                assert(out@ =~= joined(upto, ", "@));
            } else {
                assert(out@ =~= joined(nseq.take(i as int), ", "@) + ", "@ + nseq[i as int]);
            }
        }
        i = i + 1;
    }
    proof {
        assert(nseq.take(names@.len() as int) =~= nseq);
    }
    out
}

/// Whether the manifest table `m` has a table-valued `package` section
/// that carries the version-pin field.
pub open spec fn rust_version_present(m: Map<Seq<char>, Node>) -> bool {
    m.dom().contains("package"@) && m["package"@] is Table
        && m["package"@]->Table_0.dom().contains("rust-version"@)
}

/// The manifest table `m` with the version-pin field removed from its
/// package section; `m` unchanged when the field is not there.
pub open spec fn rust_version_removed(m: Map<Seq<char>, Node>) -> Map<Seq<char>, Node> {
    if rust_version_present(m) {
        m.insert("package"@, Node::Table(m["package"@]->Table_0.remove("rust-version"@)))
    } else {
        m
    }
}

/// Removes the version-pin field from the manifest's `package` section,
/// if present, and reports whether the manifest was modified.
pub fn remove_rust_version(manifest: &mut toml_edit::Table) -> (changed: bool)
    ensures
        table_model(*final(manifest)) == rust_version_removed(table_model(*old(manifest))),
        changed == rust_version_present(table_model(*old(manifest))),
{
    let mut present = false;
    match table_get(manifest, PACKAGE_SECTION_NAME) {
        None => {},
        Some(package_item) => {
            match item_as_table(package_item) {
                None => {},
                Some(package_table) => {
                    present = table_contains(package_table, RUST_VERSION_SPECIFIER);
                },
            }
        },
    }
    if present {
        let package_item = table_take(manifest, PACKAGE_SECTION_NAME);
        let mut package_table = item_into_table(package_item).unwrap();
        table_remove(&mut package_table, RUST_VERSION_SPECIFIER);
        table_set(manifest, PACKAGE_SECTION_NAME, item_from_table(package_table));
        proof {
            let m = table_model(*old(manifest));
            assert(table_model(*manifest) =~= rust_version_removed(m));
        }
        true
    } else {
        false
    }
}

/// Removing the version-pin field is idempotent: after one removal the
/// field is gone, so a second removal reports no change and gives the
/// same table.
pub proof fn lemma_remove_rust_version_idempotent(m: Map<Seq<char>, Node>)
    ensures
        !rust_version_present(rust_version_removed(m)),
        rust_version_removed(rust_version_removed(m)) == rust_version_removed(m),
{
}

/// Merges a pins document into the manifest if one was found.
///
/// `pins_file_text` carries the text of the pins file found next to the
/// manifest, or nothing when there is no such file (or the manifest path
/// has no parent directory); in that case nothing is merged. Reports
/// whether the manifest was modified.
pub fn maybe_merge_msrv_dependencies(
    manifest: &mut toml_edit::Table,
    pins_file_text: Option<&str>,
) -> (r: Result<bool>)
    ensures
        match pins_file_text {
            None => r == Ok::<bool, Error>(false) && table_model(*final(manifest)) == table_model(
                *old(manifest),
            ),
            Some(text) => if toml_parse_ok(text@) {
                &&& r == Ok::<bool, Error>(
                    msrv_merge_changed(table_model(*old(manifest)), toml_parse_model(text@)),
                )
                &&& table_model(*final(manifest)) == msrv_merge_model(
                    table_model(*old(manifest)),
                    toml_parse_model(text@),
                )
            } else {
                &&& r is Err
                &&& r->Err_0 is Toml
                &&& table_model(*final(manifest)) == table_model(*old(manifest))
            },
        },
{
    match pins_file_text {
        None => Ok(false),
        Some(text) => {
            match parse_toml_table(text) {
                Ok(pins_file) => Ok(merge_msrv_dependencies(manifest, &pins_file)),
                Err(e) => Err(Error::Toml(e)),
            }
        },
    }
}

} // verus!
