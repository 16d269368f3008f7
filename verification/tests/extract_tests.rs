use s3_vfs::error::ErrorCode;
use s3_vfs::location::parse_location;
use s3_vfs::s3_filesystem::{extract_bucket, extract_region};

#[test]
fn test_extract_bucket() {
    let location = "s3://bucket/path/to/file";
    let result = extract_bucket(location);
    assert!(result.is_ok());
    assert_eq!(result.unwrap(), "bucket");
}

#[test]
fn test_extract_region() {
    let location = "http://s3.ap-southeast-2.amazonaws.com";
    let result = extract_region(location);
    assert!(result.is_ok());
    assert_eq!(result.unwrap(), "ap-southeast-2");
}

#[test]
fn test_extract_bucket_returns_host_verbatim() {
    let result = extract_bucket("https://my-bucket/data");
    assert_eq!(result.unwrap(), "my-bucket");
}

#[test]
fn test_extract_bucket_strips_userinfo_and_port() {
    let result = extract_bucket("http://user@host.example.com:9000/x");
    assert_eq!(result.unwrap(), "host.example.com");
}

#[test]
fn test_extract_region_single_segment_host_fails() {
    let result = extract_region("s3://bucket/path/to/file");
    assert!(result.is_err());
    let err = result.unwrap_err();
    assert_eq!(err.code, ErrorCode::InvalidConfig);
    assert_eq!(
        err.message,
        "Invalid location: expected region in host, got s3://bucket/path/to/file"
    );
}

#[test]
fn test_extract_bucket_no_host_fails() {
    let result = extract_bucket("s3:///path/to/file");
    assert!(result.is_err());
    let err = result.unwrap_err();
    assert_eq!(err.code, ErrorCode::InvalidConfig);
    assert_eq!(
        err.message,
        "Invalid fileset location without bucket: s3:///path/to/file"
    );
}

#[test]
fn test_extract_region_no_host_fails() {
    let result = extract_region("s3:///path/to/file");
    assert!(result.is_err());
    assert_eq!(result.unwrap_err().code, ErrorCode::InvalidConfig);
}

#[test]
fn test_unparseable_location_fails() {
    // Both extractors propagate the parse step's error unchanged.
    let result = extract_bucket("no scheme at all");
    assert!(result.is_err());
    let err = result.unwrap_err();
    assert_eq!(err.code, ErrorCode::InvalidConfig);
    assert_eq!(err.message, "Invalid fileset location: no scheme at all");

    let result = extract_region("no scheme at all");
    assert!(result.is_err());
    let err = result.unwrap_err();
    assert_eq!(err.code, ErrorCode::InvalidConfig);
    assert_eq!(err.message, "Invalid fileset location: no scheme at all");
}

#[test]
fn test_parse_location_exposes_host() {
    let parsed = parse_location("s3://bucket/path").unwrap();
    assert_eq!(parsed.host, Some("bucket".to_string()));

    let parsed = parse_location("s3:///path").unwrap();
    assert_eq!(parsed.host, None);

    assert!(parse_location("://missing-scheme").is_err());
}

#[test]
fn test_extract_region_second_segment_without_suffix() {
    let result = extract_region("http://bucket.us-east-1");
    assert_eq!(result.unwrap(), "us-east-1");
}
