use s3_vfs::config::{AppConfig, Catalog, ConfigMap, Fileset};
use s3_vfs::error::ErrorCode;
use s3_vfs::filesystem::FileSystemContext;
use s3_vfs::s3_filesystem::{resolve_s3_params, S3FileSystem};

fn config_map(pairs: &[(&str, &str)]) -> ConfigMap {
    let mut m = ConfigMap::new();
    for (k, v) in pairs {
        m.insert(k.to_string(), v.to_string());
    }
    m
}

fn cat1() -> Catalog {
    Catalog {
        name: "cat1".to_string(),
        properties: config_map(&[("s3-region", "us-west-2")]),
    }
}

fn my_bucket_fileset() -> Fileset {
    Fileset {
        name: "fs1".to_string(),
        storage_location: "s3://my-bucket/data".to_string(),
    }
}

fn app_config() -> AppConfig {
    AppConfig {
        extend_config: config_map(&[("s3-endpoint", "http://x"), ("other-key", "y")]),
    }
}

#[test]
fn test_resolve_s3_params_end_to_end() {
    let params = resolve_s3_params(&cat1(), &my_bucket_fileset(), &app_config()).unwrap();
    assert_eq!(params.len(), 3);
    assert_eq!(params.get("endpoint"), Some(&"http://x".to_string()));
    assert_eq!(params.get("bucket"), Some(&"my-bucket".to_string()));
    assert_eq!(params.get("region"), Some(&"us-west-2".to_string()));
    assert_eq!(params.get("other-key"), None);
}

#[test]
fn test_adapter_construction_succeeds() {
    let fs = S3FileSystem::new(
        &cat1(),
        &my_bucket_fileset(),
        &app_config(),
        &FileSystemContext::default(),
    );
    assert!(fs.is_ok());
    assert!(fs.unwrap().init().is_ok());
}

#[test]
fn test_derived_bucket_and_region_override_extracted_entries() {
    let config = AppConfig {
        extend_config: config_map(&[("s3-bucket", "from-config"), ("s3-region", "from-config")]),
    };
    let params = resolve_s3_params(&cat1(), &my_bucket_fileset(), &config).unwrap();
    assert_eq!(params.len(), 2);
    assert_eq!(params.get("bucket"), Some(&"my-bucket".to_string()));
    assert_eq!(params.get("region"), Some(&"us-west-2".to_string()));
}

#[test]
fn test_construction_fails_with_invalid_config_on_bad_location() {
    let fileset = Fileset {
        name: "fs1".to_string(),
        storage_location: "s3:///no-host".to_string(),
    };
    let r = S3FileSystem::new(&cat1(), &fileset, &app_config(), &FileSystemContext::default());
    let err = r.err().unwrap();
    assert_eq!(err.code, ErrorCode::InvalidConfig);
    // The resolution error is propagated unchanged.
    assert_eq!(
        err.message,
        "Invalid fileset location without bucket: s3:///no-host"
    );
}

#[test]
fn test_construction_fails_with_invalid_config_on_unresolvable_region() {
    let catalog = Catalog {
        name: "cat1".to_string(),
        properties: config_map(&[]),
    };
    let r = S3FileSystem::new(
        &catalog,
        &my_bucket_fileset(),
        &app_config(),
        &FileSystemContext::default(),
    );
    let err = r.err().unwrap();
    assert_eq!(err.code, ErrorCode::InvalidConfig);
    assert_eq!(err.message, "Cant not retrieve region in the Catalog cat1");
}

#[test]
fn test_construction_fails_with_opendal_error_on_rejected_parameters() {
    // Resolution succeeds, but the operator builder rejects the
    // malformed numeric parameter.
    let config = AppConfig {
        extend_config: config_map(&[("s3-delete_max_size", "not-a-number")]),
    };
    let r = S3FileSystem::new(
        &cat1(),
        &my_bucket_fileset(),
        &config,
        &FileSystemContext::default(),
    );
    let err = r.err().unwrap();
    assert_eq!(err.code, ErrorCode::OpenDalError);
    assert!(err.message.starts_with("opendal create failed: "));
}
