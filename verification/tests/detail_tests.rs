use cargo_msrv_prep::detail::merge_msrv_dependencies;
use toml_edit::{DocumentMut, ImDocument};

#[test]
fn test_dependencies_merging() {
    let mut manifest = "[dependencies]\nserde = \"1.0.0\"\n\n[dev-dependencies]\nindoc = \"2.0.0\"\n\n[build-dependencies]\nrustc_version = \"0.4.0\"\n"
        .parse::<DocumentMut>()
        .unwrap();

    let msrv_dependencies = "[dependencies]\nthiserror = \"1.0.0\"\ntoml_edit = \"0.22.0\"\n";
    let msrv_dependencies = ImDocument::parse(msrv_dependencies).unwrap();

    assert!(merge_msrv_dependencies(
        manifest.as_table_mut(),
        msrv_dependencies.as_table()
    ));

    let expected = "[dependencies]\nserde = \"1.0.0\"\nthiserror = \"1.0.0\"\ntoml_edit = \"0.22.0\"\n\n[dev-dependencies]\nindoc = \"2.0.0\"\n\n[build-dependencies]\nrustc_version = \"0.4.0\"\n";
    assert_eq!(manifest.to_string(), expected);
}

#[test]
fn test_build_dependencies_merging() {
    let mut manifest = "[dependencies]\nserde = \"1.0.0\"\n\n[dev-dependencies]\nindoc = \"2.0.0\"\n\n[build-dependencies]\nrustc_version = \"0.4.0\"\n"
        .parse::<DocumentMut>()
        .unwrap();

    let msrv_dependencies = "[build-dependencies]\ncargo_metadata = \"0.18.0\"\n";
    let msrv_dependencies = ImDocument::parse(msrv_dependencies).unwrap();

    assert!(merge_msrv_dependencies(
        manifest.as_table_mut(),
        msrv_dependencies.as_table()
    ));

    let expected = "[dependencies]\nserde = \"1.0.0\"\n\n[dev-dependencies]\nindoc = \"2.0.0\"\n\n[build-dependencies]\nrustc_version = \"0.4.0\"\ncargo_metadata = \"0.18.0\"\n";
    assert_eq!(manifest.to_string(), expected);
}

#[test]
fn test_target_dependencies_merging() {
    let mut manifest = "[dependencies]\nserde = \"1.0.0\"\n\n[target.'cfg(windows)'.dependencies]\nwin32_api = \"1.0.0\"\n\n[dev-dependencies]\nindoc = \"2.0.0\"\n\n[build-dependencies]\nrustc_version = \"0.4.0\"\n\n[target.'cfg(unix)'.build-dependencies]\nunix_api = \"1.0.0\"\n"
        .parse::<DocumentMut>()
        .unwrap();

    let msrv_dependencies = "[target.'cfg(unix)'.dependencies]\nunix_specific_crate = \"1.0.0\"\n\n[target.'cfg(unix)'.build-dependencies]\nanother_unix_api = \"2.0.0\"\n";
    let msrv_dependencies = ImDocument::parse(msrv_dependencies).unwrap();

    assert!(merge_msrv_dependencies(
        manifest.as_table_mut(),
        msrv_dependencies.as_table()
    ));

    let expected = "[dependencies]\nserde = \"1.0.0\"\n[target.'cfg(unix)'.dependencies]\nunix_specific_crate = \"1.0.0\"\n\n[target.'cfg(windows)'.dependencies]\nwin32_api = \"1.0.0\"\n\n[dev-dependencies]\nindoc = \"2.0.0\"\n\n[build-dependencies]\nrustc_version = \"0.4.0\"\n\n[target.'cfg(unix)'.build-dependencies]\nunix_api = \"1.0.0\"\nanother_unix_api = \"2.0.0\"\n";
    assert_eq!(manifest.to_string(), expected);
}

#[test]
fn test_type_override() {
    let mut manifest = "target = \"what\"\n".parse::<DocumentMut>().unwrap();

    let msrv_dependencies = "[target.'cfg(unix)'.dependencies]\nunix_specific_crate = \"1.0.0\"\n";
    let msrv_dependencies = ImDocument::parse(msrv_dependencies).unwrap();

    assert!(merge_msrv_dependencies(
        manifest.as_table_mut(),
        msrv_dependencies.as_table()
    ));

    let expected = "[target.\"cfg(unix)\".dependencies]\nunix_specific_crate = \"1.0.0\"\n";
    assert_eq!(manifest.to_string(), expected);
}

#[test]
fn repeated_table_merge_is_idempotent() {
    let mut manifest = "[dependencies]\nserde = \"1.0.0\"\n".parse::<DocumentMut>().unwrap();

    let msrv_dependencies = "[dependencies]\nthiserror = \"1.0.0\"\n";
    let msrv_dependencies = ImDocument::parse(msrv_dependencies).unwrap();

    assert!(merge_msrv_dependencies(
        manifest.as_table_mut(),
        msrv_dependencies.as_table()
    ));
    let after_first = manifest.to_string();

    assert!(merge_msrv_dependencies(
        manifest.as_table_mut(),
        msrv_dependencies.as_table()
    ));
    assert_eq!(after_first, manifest.to_string());
}

#[test]
fn inline_table_destination_is_replaced() {
    let mut manifest = "dependencies = { serde = \"1.0.0\" }\n".parse::<DocumentMut>().unwrap();

    let msrv_dependencies = "[dependencies]\nthiserror = \"1.0.0\"\n";
    let msrv_dependencies = ImDocument::parse(msrv_dependencies).unwrap();

    assert!(merge_msrv_dependencies(
        manifest.as_table_mut(),
        msrv_dependencies.as_table()
    ));

    let merged = manifest["dependencies"].as_table().unwrap();
    assert_eq!(merged.len(), 1);
    assert!(merged.contains_key("thiserror"));
    assert!(!merged.contains_key("serde"));
}
