use cargo_msrv_prep::paths::{get_backup_path, lockfile_path, pins_file_path};
use cargo_msrv_prep::Error;

#[test]
fn backup_path_in_subdirectory() {
    let path = get_backup_path("foo/Cargo.toml", ".bak").unwrap();
    assert_eq!(path, "foo/Cargo.toml.bak");
}

#[test]
fn backup_path_of_bare_file_name() {
    let path = get_backup_path("Cargo.toml", ".bak").unwrap();
    assert_eq!(path, "Cargo.toml.bak");
}

#[test]
fn backup_path_under_root() {
    let path = get_backup_path("/Cargo.toml", ".bak").unwrap();
    assert_eq!(path, "/Cargo.toml.bak");
}

#[test]
fn trailing_separators_are_ignored() {
    assert_eq!(get_backup_path("foo/dir/", ".bak").unwrap(), "foo/dir.bak");
    assert_eq!(lockfile_path("foo/Cargo.toml/"), "foo/Cargo.lock");
    match get_backup_path("///", ".bak") {
        Err(Error::InvalidPath(path)) => assert_eq!(path, "///"),
        other => panic!("expected an invalid path error, got {:?}", other),
    }
}

#[test]
fn backup_path_of_empty_path_fails() {
    match get_backup_path("", ".bak") {
        Err(Error::InvalidPath(path)) => assert_eq!(path, ""),
        other => panic!("expected an invalid path error, got {:?}", other),
    }
}

#[test]
fn backup_path_of_dot_dot_fails() {
    match get_backup_path("..", ".bak") {
        Err(Error::InvalidPath(path)) => assert_eq!(path, ".."),
        other => panic!("expected an invalid path error, got {:?}", other),
    }
}

#[test]
fn lockfile_path_replaces_extension() {
    assert_eq!(lockfile_path("foo/Cargo.toml"), "foo/Cargo.lock");
    assert_eq!(lockfile_path("Cargo.toml"), "Cargo.lock");
}

#[test]
fn lockfile_path_appends_extension_when_none() {
    assert_eq!(lockfile_path("dir/manifest"), "dir/manifest.lock");
}

#[test]
fn lockfile_path_of_dot_file() {
    assert_eq!(lockfile_path("dir/.hidden"), "dir/.hidden.lock");
}

#[test]
fn pins_file_next_to_manifest() {
    assert_eq!(
        pins_file_path("foo/Cargo.toml", "msrv-pins.toml").as_deref(),
        Some("foo/msrv-pins.toml")
    );
    assert_eq!(
        pins_file_path("Cargo.toml", "msrv-pins.toml").as_deref(),
        Some("msrv-pins.toml")
    );
}

#[test]
fn pins_file_of_empty_path_is_none() {
    assert!(pins_file_path("", "msrv-pins.toml").is_none());
}
