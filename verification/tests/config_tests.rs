use s3_vfs::config::{AppConfig, Catalog, ConfigMap};
use s3_vfs::error::ErrorCode;
use s3_vfs::s3_filesystem::{extract_s3_config, S3FileSystem};

fn config_map(pairs: &[(&str, &str)]) -> ConfigMap {
    let mut m = ConfigMap::new();
    for (k, v) in pairs {
        m.insert(k.to_string(), v.to_string());
    }
    m
}

#[test]
fn test_extract_s3_config_strips_prefix() {
    let config = AppConfig {
        extend_config: config_map(&[
            ("s3-endpoint", "http://x"),
            ("other-key", "y"),
            ("s3-region", "us-east-1"),
        ]),
    };
    let extracted = extract_s3_config(&config);
    assert_eq!(extracted.len(), 2);
    assert_eq!(extracted.get("endpoint"), Some(&"http://x".to_string()));
    assert_eq!(extracted.get("region"), Some(&"us-east-1".to_string()));
    assert_eq!(extracted.get("other-key"), None);
    assert_eq!(extracted.get("y"), None);
}

#[test]
fn test_extract_s3_config_empty_when_nothing_matches() {
    let config = AppConfig {
        extend_config: config_map(&[("foo", "bar"), ("s4-x", "y")]),
    };
    let extracted = extract_s3_config(&config);
    assert_eq!(extracted.len(), 0);
}

#[test]
fn test_config_map_last_write_wins() {
    let m = config_map(&[("k", "first"), ("k", "second")]);
    assert_eq!(m.get("k"), Some(&"second".to_string()));
    assert_eq!(m.len(), 1);
}

#[test]
fn test_get_s3_region_prefers_explicit_property() {
    let catalog = Catalog {
        name: "c".to_string(),
        properties: config_map(&[
            ("s3-region", "us-west-1"),
            ("s3-endpoint", "http://s3.eu-central-1.amazonaws.com"),
        ]),
    };
    let region = S3FileSystem::get_s3_region(&catalog);
    assert_eq!(region.unwrap(), "us-west-1");
}

#[test]
fn test_get_s3_region_falls_back_to_endpoint() {
    let catalog = Catalog {
        name: "c".to_string(),
        properties: config_map(&[("s3-endpoint", "http://s3.ap-southeast-2.amazonaws.com")]),
    };
    let region = S3FileSystem::get_s3_region(&catalog);
    assert_eq!(region.unwrap(), "ap-southeast-2");
}

#[test]
fn test_get_s3_region_fails_without_region_or_endpoint() {
    let catalog = Catalog {
        name: "c".to_string(),
        properties: config_map(&[("unrelated", "x")]),
    };
    let region = S3FileSystem::get_s3_region(&catalog);
    assert!(region.is_err());
    let err = region.unwrap_err();
    assert_eq!(err.code, ErrorCode::InvalidConfig);
    assert_eq!(err.message, "Cant not retrieve region in the Catalog c");
}

#[test]
fn test_get_s3_region_propagates_bad_endpoint() {
    let catalog = Catalog {
        name: "c".to_string(),
        properties: config_map(&[("s3-endpoint", "http://single-segment")]),
    };
    let region = S3FileSystem::get_s3_region(&catalog);
    assert!(region.is_err());
    let err = region.unwrap_err();
    assert_eq!(err.code, ErrorCode::InvalidConfig);
    assert_eq!(
        err.message,
        "Invalid location: expected region in host, got http://single-segment"
    );
}
