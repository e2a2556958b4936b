//! Planning backups and restores of a manifest and its companion lockfile.
//!
//! The planners do no I/O themselves: given a manifest path, a backup
//! suffix and the relevant facts about the file system (whether a backup
//! already exists, whether a lockfile exists), they validate the request
//! and return the list of file operations to perform, in order. The
//! caller queries the file system, runs the returned operations, and owns
//! every failure of the file system itself.
//!
//! A backup copies the original next to itself under the backed-up name,
//! leaving the original in place for further editing; a restore renames
//! the backup onto the original, consuming the backup. The effect of a
//! plan on a file system is specified by [`apply_ops`] over a map from
//! path to file content, and the round-trip law [`lemma_backup_restore`]
//! shows that a backup followed by a restore puts every file back and
//! leaves no backup behind.
use vstd::prelude::*;

use crate::paths::{backup_path_of, get_backup_path, lockfile_path, lockfile_path_of};
use crate::result::Error;
use crate::result::Result;

verus! {

/// One file operation of a backup or restore plan.
#[derive(Debug)]
pub enum FsOp {
    Copy { from: String, to: String },
    Rename { from: String, to: String },
}

/// The model of a file operation: the same pair of paths, as text.
pub enum FsOpModel {
    Copy { from: Seq<char>, to: Seq<char> },
    Rename { from: Seq<char>, to: Seq<char> },
}

impl View for FsOp {
    type V = FsOpModel;

    open spec fn view(&self) -> FsOpModel {
        match self {
            FsOp::Copy { from, to } => FsOpModel::Copy { from: from@, to: to@ },
            FsOp::Rename { from, to } => FsOpModel::Rename { from: from@, to: to@ },
        }
    }
}

/// The file system after one operation, modelled as a map from path to
/// content: a copy binds the target to the source's content, a rename
/// does the same and unbinds the source; an operation whose source does
/// not exist changes nothing (the real operation fails instead).
pub open spec fn apply_op(
    fs: Map<Seq<char>, Seq<u8>>,
    op: FsOpModel,
) -> Map<Seq<char>, Seq<u8>> {
    match op {
        FsOpModel::Copy { from, to } => if fs.dom().contains(from) {
            fs.insert(to, fs[from])
        } else {
            fs
        },
        FsOpModel::Rename { from, to } => if fs.dom().contains(from) {
            fs.remove(from).insert(to, fs[from])
        } else {
            fs
        },
    }
}

/// The file system after a sequence of operations, applied in order.
pub open spec fn apply_ops(
    fs: Map<Seq<char>, Seq<u8>>,
    ops: Seq<FsOpModel>,
) -> Map<Seq<char>, Seq<u8>>
    decreases ops.len(),
{
    if ops.len() == 0 {
        fs
    } else {
        apply_ops(apply_op(fs, ops[0]), ops.drop_first())
    }
}

/// The outcome of planning a backup.
pub enum BackupPlan {
    /// A path with no file name or no parent directory.
    Invalid(Seq<char>),
    /// A backup file already exists and overwriting was not allowed.
    Conflict(Seq<char>),
    /// The copies to perform, in order.
    Ops(Seq<FsOpModel>),
}

/// The plan for backing up the manifest at `p` (and its lockfile, when one
/// exists) with the given suffix: both backup paths are derived, both are
/// checked for conflicts unless `force` allows overwriting, and only then
/// are the copies listed — the manifest's first.
pub open spec fn backup_plan(
    p: Seq<char>,
    suffix: Seq<char>,
    force: bool,
    manifest_backup_exists: bool,
    lockfile_exists: bool,
    lockfile_backup_exists: bool,
) -> BackupPlan {
    match backup_path_of(p, suffix) {
        None => BackupPlan::Invalid(p),
        Some(mb) => {
            let lp = lockfile_path_of(p);
            match backup_path_of(lp, suffix) {
                None => BackupPlan::Invalid(lp),
                Some(lb) => {
                    if manifest_backup_exists && !force {
                        BackupPlan::Conflict(mb)
                    } else if lockfile_exists && lockfile_backup_exists && !force {
                        BackupPlan::Conflict(lb)
                    } else {
                        let ops = seq![FsOpModel::Copy { from: p, to: mb }];
                        BackupPlan::Ops(
                            if lockfile_exists {
                                ops.push(FsOpModel::Copy { from: lp, to: lb })
                            } else {
                                ops
                            },
                        )
                    }
                },
            }
        },
    }
}

/// The outcome of planning a restore.
pub enum RestorePlan {
    /// A path with no file name or no parent directory.
    Invalid(Seq<char>),
    /// The renames to perform, in order.
    Ops(Seq<FsOpModel>),
}

/// The plan for restoring the manifest at `p` (and its lockfile) from the
/// backups made with the given suffix: each file whose backup exists is
/// restored by renaming the backup onto it — the manifest first; a
/// missing backup is a silent no-op.
pub open spec fn restore_plan(
    p: Seq<char>,
    suffix: Seq<char>,
    manifest_backup_exists: bool,
    lockfile_backup_exists: bool,
) -> RestorePlan {
    match backup_path_of(p, suffix) {
        None => RestorePlan::Invalid(p),
        Some(mb) => {
            let lp = lockfile_path_of(p);
            match backup_path_of(lp, suffix) {
                None => RestorePlan::Invalid(lp),
                Some(lb) => {
                    let ops = if manifest_backup_exists {
                        seq![FsOpModel::Rename { from: mb, to: p }]
                    } else {
                        Seq::<FsOpModel>::empty()
                    };
                    RestorePlan::Ops(
                        if lockfile_backup_exists {
                            ops.push(FsOpModel::Rename { from: lb, to: lp })
                        } else {
                            ops
                        },
                    )
                },
            }
        },
    }
}

/// Plans the backup of the manifest at `manifest_path` before it is
/// overwritten.
///
/// The caller reports whether a manifest backup already exists, whether a
/// lockfile exists next to the manifest, and whether a lockfile backup
/// already exists; an existing backup fails the request unless `force`
/// allows overwriting it. On success the copies to perform are returned
/// in order, the manifest's first.
pub fn backup_manifest(
    manifest_path: &str,
    backup_suffix: &str,
    force: bool,
    manifest_backup_exists: bool,
    lockfile_exists: bool,
    lockfile_backup_exists: bool,
) -> (r: Result<Vec<FsOp>>)
    ensures
        match backup_plan(
            manifest_path@,
            backup_suffix@,
            force,
            manifest_backup_exists,
            lockfile_exists,
            lockfile_backup_exists,
        ) {
            BackupPlan::Invalid(q) => r matches Err(Error::InvalidPath(s)) && s@ == q,
            BackupPlan::Conflict(q) => r matches Err(Error::BackupFileAlreadyExists(s)) && s@
                == q,
            BackupPlan::Ops(ops) => r matches Ok(v) && v@.map_values(|o: FsOp| o@) == ops,
        },
{
    let lockfile = lockfile_path(manifest_path);
    let manifest_backup = match get_backup_path(manifest_path, backup_suffix) {
        Ok(p) => p,
        Err(e) => {
            return Err(e);
        },
    };
    let lockfile_backup = match get_backup_path(lockfile.as_str(), backup_suffix) {
        Ok(p) => p,
        Err(e) => {
            return Err(e);
        },
    };
    if manifest_backup_exists && !force {
        return Err(Error::BackupFileAlreadyExists(manifest_backup));
    }
    if lockfile_exists && lockfile_backup_exists && !force {
        return Err(Error::BackupFileAlreadyExists(lockfile_backup));
    }
    let mut ops: Vec<FsOp> = Vec::new();
    let manifest_from = manifest_path.to_owned();
    ops.push(FsOp::Copy { from: manifest_from, to: manifest_backup });
    if lockfile_exists {
        ops.push(FsOp::Copy { from: lockfile, to: lockfile_backup });
    }
    proof {
        let plan = backup_plan(
            manifest_path@,
            backup_suffix@,
            force,
            manifest_backup_exists,
            lockfile_exists,
            lockfile_backup_exists,
        );
        assert(ops@.map_values(|o: FsOp| o@) =~= plan->Ops_0);
    }
    Ok(ops)
}

/// Plans the restore of the manifest at `manifest_path` (and of its
/// lockfile) from the backups made with the given suffix.
///
/// The caller reports which of the two backup files exist; each backup
/// that exists is restored by renaming it onto the file it backs up, and
/// a missing backup is a silent no-op. On success the renames to perform
/// are returned in order, the manifest's first.
pub fn maybe_restore_manifest(
    manifest_path: &str,
    backup_suffix: &str,
    manifest_backup_exists: bool,
    lockfile_backup_exists: bool,
) -> (r: Result<Vec<FsOp>>)
    ensures
        match restore_plan(
            manifest_path@,
            backup_suffix@,
            manifest_backup_exists,
            lockfile_backup_exists,
        ) {
            RestorePlan::Invalid(q) => r matches Err(Error::InvalidPath(s)) && s@ == q,
            RestorePlan::Ops(ops) => r matches Ok(v) && v@.map_values(|o: FsOp| o@) == ops,
        },
{
    let lockfile = lockfile_path(manifest_path);
    let manifest_backup = match get_backup_path(manifest_path, backup_suffix) {
        Ok(p) => p,
        Err(e) => {
            return Err(e);
        },
    };
    let lockfile_backup = match get_backup_path(lockfile.as_str(), backup_suffix) {
        Ok(p) => p,
        Err(e) => {
            return Err(e);
        },
    };
    let mut ops: Vec<FsOp> = Vec::new();
    if manifest_backup_exists {
        let manifest_to = manifest_path.to_owned();
        ops.push(FsOp::Rename { from: manifest_backup, to: manifest_to });
    }
    if lockfile_backup_exists {
        ops.push(FsOp::Rename { from: lockfile_backup, to: lockfile });
    }
    proof {
        let plan = restore_plan(
            manifest_path@,
            backup_suffix@,
            manifest_backup_exists,
            lockfile_backup_exists,
        );
        assert(ops@.map_values(|o: FsOp| o@) =~= plan->Ops_0);
    }
    Ok(ops)
}

/// Backing up and then restoring puts every file back.
///
/// For a file system holding the manifest at `p` and no stale backup
/// files, where the manifest, its lockfile and the two backup paths are
/// four different paths: the backup plan succeeds; the restore plan,
/// planned against the file system the backup produced, succeeds; and
/// applying the two plans in turn gives back exactly the original file
/// system — every file byte-identical, no backup file left behind.
pub proof fn lemma_backup_restore(
    fs: Map<Seq<char>, Seq<u8>>,
    p: Seq<char>,
    suffix: Seq<char>,
    force: bool,
)
    requires
        backup_path_of(p, suffix) is Some,
        backup_path_of(lockfile_path_of(p), suffix) is Some,
        fs.dom().contains(p),
        !fs.dom().contains(backup_path_of(p, suffix).unwrap()),
        !fs.dom().contains(backup_path_of(lockfile_path_of(p), suffix).unwrap()),
        p != lockfile_path_of(p),
        p != backup_path_of(p, suffix).unwrap(),
        p != backup_path_of(lockfile_path_of(p), suffix).unwrap(),
        lockfile_path_of(p) != backup_path_of(p, suffix).unwrap(),
        lockfile_path_of(p) != backup_path_of(lockfile_path_of(p), suffix).unwrap(),
        backup_path_of(p, suffix).unwrap() != backup_path_of(
            lockfile_path_of(p),
            suffix,
        ).unwrap(),
    ensures
        backup_plan(
            p,
            suffix,
            force,
            false,
            fs.dom().contains(lockfile_path_of(p)),
            false,
        ) is Ops,
        ({
            let after_backup = apply_ops(
                fs,
                backup_plan(
                    p,
                    suffix,
                    force,
                    false,
                    fs.dom().contains(lockfile_path_of(p)),
                    false,
                )->Ops_0,
            );
            &&& restore_plan(
                p,
                suffix,
                after_backup.dom().contains(backup_path_of(p, suffix).unwrap()),
                after_backup.dom().contains(
                    backup_path_of(lockfile_path_of(p), suffix).unwrap(),
                ),
            ) is Ops
            &&& apply_ops(
                after_backup,
                restore_plan(
                    p,
                    suffix,
                    after_backup.dom().contains(backup_path_of(p, suffix).unwrap()),
                    after_backup.dom().contains(
                        backup_path_of(lockfile_path_of(p), suffix).unwrap(),
                    ),
                )->Ops_0,
            ) == fs
        }),
{
    reveal_with_fuel(apply_ops, 3);
    let mb = backup_path_of(p, suffix).unwrap();
    let lp = lockfile_path_of(p);
    let lb = backup_path_of(lp, suffix).unwrap();
    let lf_exists = fs.dom().contains(lp);
    let bops = backup_plan(p, suffix, force, false, lf_exists, false)->Ops_0;
    if lf_exists {
        assert(bops =~= seq![
            FsOpModel::Copy { from: p, to: mb },
            FsOpModel::Copy { from: lp, to: lb },
        ]);
        let fs1 = apply_op(fs, bops[0]);
        assert(bops.drop_first() =~= seq![FsOpModel::Copy { from: lp, to: lb }]);
        let fs2 = apply_op(fs1, FsOpModel::Copy { from: lp, to: lb });
        assert(seq![FsOpModel::Copy { from: lp, to: lb }].drop_first()
            =~= Seq::<FsOpModel>::empty());
        assert(apply_ops(fs, bops) == fs2);
        assert(fs2 == fs.insert(mb, fs[p]).insert(lb, fs[lp]));
        let rops = restore_plan(
            p,
            suffix,
            fs2.dom().contains(mb),
            fs2.dom().contains(lb),
        )->Ops_0;
        assert(rops =~= seq![
            FsOpModel::Rename { from: mb, to: p },
            FsOpModel::Rename { from: lb, to: lp },
        ]);
        let fs3 = apply_op(fs2, rops[0]);
        assert(rops.drop_first() =~= seq![FsOpModel::Rename { from: lb, to: lp }]);
        let fs4 = apply_op(fs3, FsOpModel::Rename { from: lb, to: lp });
        assert(seq![FsOpModel::Rename { from: lb, to: lp }].drop_first()
            =~= Seq::<FsOpModel>::empty());
        assert(apply_ops(fs2, rops) == fs4);
        assert(fs4 =~= fs);
    } else {
        assert(bops =~= seq![FsOpModel::Copy { from: p, to: mb }]);
        let fs1 = apply_op(fs, bops[0]);
        assert(bops.drop_first() =~= Seq::<FsOpModel>::empty());
        assert(apply_ops(fs, bops) == fs1);
        assert(fs1 == fs.insert(mb, fs[p]));
        assert(!fs1.dom().contains(lp));
        let rops = restore_plan(
            p,
            suffix,
            fs1.dom().contains(mb),
            fs1.dom().contains(lb),
        )->Ops_0;
        assert(rops =~= seq![FsOpModel::Rename { from: mb, to: p }]);
        let fs2 = apply_op(fs1, rops[0]);
        assert(rops.drop_first() =~= Seq::<FsOpModel>::empty());
        assert(apply_ops(fs1, rops) == fs2);
        assert(fs2 =~= fs);
    }
}

} // verus!
