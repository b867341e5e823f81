use manifestor::LookupError;
use manifestor::get_manifests;

// A mock accessor simulating the key-value store's `get` function.
fn mock_get(bucket: &str, key: &str) -> Result<Option<Vec<u8>>, String> {
    match (bucket, key) {
        // The list of application names under the index key.
        ("wadm_manifests", "default") => Ok(Some(Vec::from(r#"["mds", "another-app"]"#))),
        // The configuration of one application under its derived key.
        ("wadm_manifests", "default-mds") => Ok(Some(Vec::from(r#"{"config": "value"}"#))),
        _ => Err("Key not found".to_string()),
    }
}

#[test]
fn test_get_manifests() {
    let app_name = "mds";
    let wadm_manifest = "wadm_manifests";
    let wadm_default_manifest = "default";

    let result = get_manifests(mock_get, app_name, wadm_manifest, wadm_default_manifest);

    assert!(result.is_ok());
    assert_eq!(result.unwrap(), r#"{"config": "value"}"#);
}

#[test]
fn test_get_manifests_app_not_found() {
    let app_name = "non_existent_app";
    let wadm_manifest = "wadm_manifests";
    let wadm_default_manifest = "default";

    let result = get_manifests(mock_get, app_name, wadm_manifest, wadm_default_manifest);

    assert!(result.is_err());
    assert_eq!(result.unwrap_err().message(), "App non_existent_app not found");
}

fn mock_get_index_missing(_bucket: &str, _key: &str) -> Result<Option<Vec<u8>>, String> {
    Ok(None)
}

#[test]
fn index_key_absent_is_distinct_from_app_not_found() {
    let err = get_manifests(mock_get_index_missing, "mds", "wadm_manifests", "default")
        .unwrap_err();
    assert_eq!(err, LookupError::IndexNotFound);
    assert_eq!(err.message(), "Failed to get app name from default manifest");
    assert_ne!(err, LookupError::AppNotFound { app: "mds".to_string() });
}

fn mock_get_index_failure(_bucket: &str, _key: &str) -> Result<Option<Vec<u8>>, String> {
    Err("store offline".to_string())
}

#[test]
fn index_retrieval_failure_is_wrapped() {
    let err = get_manifests(mock_get_index_failure, "mds", "wadm_manifests", "default")
        .unwrap_err();
    assert_eq!(err, LookupError::IndexRetrieval { detail: "store offline".to_string() });
    assert_eq!(err.message(), "Failed to retrieve index: store offline");
}

fn mock_get_index_garbled(bucket: &str, key: &str) -> Result<Option<Vec<u8>>, String> {
    match (bucket, key) {
        ("wadm_manifests", "default") => Ok(Some(Vec::from("not an index"))),
        _ => Err("Key not found".to_string()),
    }
}

#[test]
fn malformed_index_is_reported() {
    let err = get_manifests(mock_get_index_garbled, "mds", "wadm_manifests", "default")
        .unwrap_err();
    assert!(matches!(err, LookupError::IndexMalformed { .. }));
}

fn mock_get_index_not_strings(bucket: &str, key: &str) -> Result<Option<Vec<u8>>, String> {
    match (bucket, key) {
        ("wadm_manifests", "default") => Ok(Some(Vec::from(r#"["mds", 7]"#))),
        _ => Err("Key not found".to_string()),
    }
}

#[test]
fn index_of_non_strings_is_malformed() {
    let err = get_manifests(mock_get_index_not_strings, "mds", "wadm_manifests", "default")
        .unwrap_err();
    assert!(matches!(err, LookupError::IndexMalformed { .. }));
}

fn mock_get_config_missing(bucket: &str, key: &str) -> Result<Option<Vec<u8>>, String> {
    match (bucket, key) {
        ("wadm_manifests", "default") => Ok(Some(Vec::from(r#"["mds"]"#))),
        ("wadm_manifests", "default-mds") => Ok(None),
        _ => Err("Key not found".to_string()),
    }
}

#[test]
fn config_absent_is_reported() {
    let err = get_manifests(mock_get_config_missing, "mds", "wadm_manifests", "default")
        .unwrap_err();
    assert_eq!(err, LookupError::ConfigNotFound);
    assert_eq!(err.message(), "Failed to get config for app: Config not found");
}

fn mock_get_config_failure(bucket: &str, key: &str) -> Result<Option<Vec<u8>>, String> {
    match (bucket, key) {
        ("wadm_manifests", "default") => Ok(Some(Vec::from(r#"["mds"]"#))),
        ("wadm_manifests", "default-mds") => Err("timeout".to_string()),
        _ => Err("Key not found".to_string()),
    }
}

#[test]
fn config_retrieval_failure_is_wrapped() {
    let err = get_manifests(mock_get_config_failure, "mds", "wadm_manifests", "default")
        .unwrap_err();
    assert_eq!(err, LookupError::ConfigRetrieval { detail: "timeout".to_string() });
    assert_eq!(err.message(), "Failed to get config for app: timeout");
}

fn mock_get_config_binary(bucket: &str, key: &str) -> Result<Option<Vec<u8>>, String> {
    match (bucket, key) {
        ("wadm_manifests", "default") => Ok(Some(Vec::from(r#"["mds"]"#))),
        ("wadm_manifests", "default-mds") => Ok(Some(vec![0xff, 0xfe, 0x00])),
        _ => Err("Key not found".to_string()),
    }
}

#[test]
fn non_utf8_config_is_an_encoding_error() {
    let err = get_manifests(mock_get_config_binary, "mds", "wadm_manifests", "default")
        .unwrap_err();
    assert_eq!(err, LookupError::NotUtf8);
}

fn mock_get_recording(bucket: &str, key: &str) -> Result<Option<Vec<u8>>, String> {
    match (bucket, key) {
        ("b", "idx") => Ok(Some(Vec::from(r#"["app-x"]"#))),
        ("b", "idx-app-x") => Ok(Some(Vec::from("manifest text"))),
        _ => Err(format!("unexpected key {key}")),
    }
}

#[test]
fn derived_key_joins_index_key_and_name_with_hyphen() {
    let result = get_manifests(mock_get_recording, "app-x", "b", "idx");
    assert_eq!(result.unwrap(), "manifest text");
}
