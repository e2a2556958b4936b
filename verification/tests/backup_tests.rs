use std::collections::HashMap;

use cargo_msrv_prep::backup::FsOp;
use cargo_msrv_prep::{backup_manifest, maybe_restore_manifest, Error};

/// Applies planned operations to an in-memory file system.
fn apply(fs: &mut HashMap<String, Vec<u8>>, ops: &[FsOp]) {
    for op in ops {
        match op {
            FsOp::Copy { from, to } => {
                let content = fs.get(from).expect("copy source must exist").clone();
                fs.insert(to.clone(), content);
            },
            FsOp::Rename { from, to } => {
                let content = fs.remove(from).expect("rename source must exist");
                fs.insert(to.clone(), content);
            },
        }
    }
}

#[test]
fn backup_plans_one_copy_without_lockfile() {
    let ops = backup_manifest("proj/Cargo.toml", ".msrv-prep.bak", false, false, false, false)
        .unwrap();

    assert_eq!(ops.len(), 1);
    match &ops[0] {
        FsOp::Copy { from, to } => {
            assert_eq!(from, "proj/Cargo.toml");
            assert_eq!(to, "proj/Cargo.toml.msrv-prep.bak");
        },
        other => panic!("expected a copy, got {:?}", other),
    }
}

#[test]
fn backup_plans_manifest_then_lockfile() {
    let ops = backup_manifest("proj/Cargo.toml", ".msrv-prep.bak", false, false, true, false)
        .unwrap();

    assert_eq!(ops.len(), 2);
    match (&ops[0], &ops[1]) {
        (FsOp::Copy { from: f0, to: t0 }, FsOp::Copy { from: f1, to: t1 }) => {
            assert_eq!(f0, "proj/Cargo.toml");
            assert_eq!(t0, "proj/Cargo.toml.msrv-prep.bak");
            assert_eq!(f1, "proj/Cargo.lock");
            assert_eq!(t1, "proj/Cargo.lock.msrv-prep.bak");
        },
        other => panic!("expected two copies, got {:?}", other),
    }
}

#[test]
fn existing_backup_fails_without_force() {
    let mut fs: HashMap<String, Vec<u8>> = HashMap::new();
    fs.insert("proj/Cargo.toml".to_string(), b"manifest".to_vec());
    fs.insert("proj/Cargo.toml.msrv-prep.bak".to_string(), b"old backup".to_vec());

    let result = backup_manifest("proj/Cargo.toml", ".msrv-prep.bak", false, true, false, false);

    match result {
        Err(Error::BackupFileAlreadyExists(path)) => {
            assert_eq!(path, "proj/Cargo.toml.msrv-prep.bak");
        },
        other => panic!("expected a backup conflict, got {:?}", other),
    }
    assert_eq!(fs["proj/Cargo.toml.msrv-prep.bak"], b"old backup".to_vec());
}

#[test]
fn existing_lockfile_backup_fails_without_force() {
    let result = backup_manifest("proj/Cargo.toml", ".msrv-prep.bak", false, false, true, true);

    match result {
        Err(Error::BackupFileAlreadyExists(path)) => {
            assert_eq!(path, "proj/Cargo.lock.msrv-prep.bak");
        },
        other => panic!("expected a backup conflict, got {:?}", other),
    }
}

#[test]
fn force_overwrites_existing_backup() {
    let mut fs: HashMap<String, Vec<u8>> = HashMap::new();
    fs.insert("proj/Cargo.toml".to_string(), b"manifest".to_vec());
    fs.insert("proj/Cargo.toml.msrv-prep.bak".to_string(), b"old backup".to_vec());

    let ops = backup_manifest("proj/Cargo.toml", ".msrv-prep.bak", true, true, false, false)
        .unwrap();
    apply(&mut fs, &ops);

    assert_eq!(fs["proj/Cargo.toml.msrv-prep.bak"], b"manifest".to_vec());
}

#[test]
fn backup_of_invalid_path_fails() {
    let result = backup_manifest("", ".msrv-prep.bak", false, false, false, false);

    match result {
        Err(Error::InvalidPath(path)) => assert_eq!(path, ""),
        other => panic!("expected an invalid path error, got {:?}", other),
    }
}

#[test]
fn restore_plans_one_rename() {
    let ops = maybe_restore_manifest("proj/Cargo.toml", ".msrv-prep.bak", true, false).unwrap();

    assert_eq!(ops.len(), 1);
    match &ops[0] {
        FsOp::Rename { from, to } => {
            assert_eq!(from, "proj/Cargo.toml.msrv-prep.bak");
            assert_eq!(to, "proj/Cargo.toml");
        },
        other => panic!("expected a rename, got {:?}", other),
    }
}

#[test]
fn restore_without_backup_is_a_no_op() {
    let ops = maybe_restore_manifest("proj/Cargo.toml", ".msrv-prep.bak", false, false).unwrap();

    assert!(ops.is_empty());
}

#[test]
fn restore_restores_lockfile_backup_even_when_lockfile_is_gone() {
    let ops = maybe_restore_manifest("proj/Cargo.toml", ".msrv-prep.bak", true, true).unwrap();

    assert_eq!(ops.len(), 2);
    match &ops[1] {
        FsOp::Rename { from, to } => {
            assert_eq!(from, "proj/Cargo.lock.msrv-prep.bak");
            assert_eq!(to, "proj/Cargo.lock");
        },
        other => panic!("expected a rename, got {:?}", other),
    }
}

#[test]
fn backup_then_restore_round_trip() {
    let mut fs: HashMap<String, Vec<u8>> = HashMap::new();
    fs.insert("proj/Cargo.toml".to_string(), b"manifest content".to_vec());
    fs.insert("proj/Cargo.lock".to_string(), b"lockfile content".to_vec());
    let initial = fs.clone();

    let backup_ops = backup_manifest(
        "proj/Cargo.toml",
        ".msrv-prep.bak",
        false,
        fs.contains_key("proj/Cargo.toml.msrv-prep.bak"),
        fs.contains_key("proj/Cargo.lock"),
        fs.contains_key("proj/Cargo.lock.msrv-prep.bak"),
    )
    .unwrap();
    apply(&mut fs, &backup_ops);

    fs.insert("proj/Cargo.toml".to_string(), b"edited manifest".to_vec());

    let restore_ops = maybe_restore_manifest(
        "proj/Cargo.toml",
        ".msrv-prep.bak",
        fs.contains_key("proj/Cargo.toml.msrv-prep.bak"),
        fs.contains_key("proj/Cargo.lock.msrv-prep.bak"),
    )
    .unwrap();
    apply(&mut fs, &restore_ops);

    assert_eq!(initial, fs);
}
