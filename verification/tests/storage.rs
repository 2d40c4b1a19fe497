use duckdelta::error::Error;
use duckdelta::pipeline::sinks::delta_sink::{
    aws_config, classify, is_local_storage, route, strip_file_prefix, StorageAccess, StorageKind,
    StorageOptions,
};
use duckdelta::pipeline::sinks::{Delta, MergeRequest};

const NO_SCHEME: &str = "storage type should start with either s3:// or file://";

/// Tests whether `is_local_storage` correctly identifies URI types.
#[test]
fn test_is_local_storage() -> Result<(), Error> {
    assert_eq!(is_local_storage("s3://mybucket/myfile.csv")?, false);
    assert_eq!(is_local_storage("file:///path/to/myfile.csv")?, true);

    assert!(is_local_storage("ftp://mybucket/myfile.csv").is_err());
    assert!(is_local_storage("https://mybucket/myfile.csv").is_err());
    assert!(is_local_storage("mybucket/myfile.csv").is_err());
    assert!(is_local_storage("").is_err());
    assert!(is_local_storage("myfile.csv").is_err());

    Ok(())
}

/// Tests the `strip_file_prefix` function.
#[test]
fn test_strip_file_prefix() -> Result<(), Error> {
    assert_eq!(strip_file_prefix("file:///path/to/myfile.csv")?, "/path/to/myfile.csv");

    assert!(strip_file_prefix("s3://mybucket/myfile.csv").is_ok());
    assert!(strip_file_prefix("ftp://mybucket/myfile.csv").is_err());
    assert!(strip_file_prefix("https://mybucket/myfile.csv").is_err());
    assert!(strip_file_prefix("mybucket/myfile.csv").is_err());
    assert!(strip_file_prefix("").is_err());
    assert!(strip_file_prefix("myfile.csv").is_err());

    Ok(())
}

#[test]
fn strip_file_prefix_leaves_remote_locations_whole() {
    assert_eq!(strip_file_prefix("s3://mybucket/myfile.csv").unwrap(), "s3://mybucket/myfile.csv");
    assert_eq!(strip_file_prefix("file://").unwrap(), "");
    match strip_file_prefix("/tmp/x") {
        Err(Error::StorageClassification(m)) => {
            assert_eq!(m, "strip_file_prefix called on a non-file uri")
        }
        other => panic!("unexpected: {:?}", other),
    }
}

#[test]
fn classify_knows_two_schemes_and_no_default() {
    assert_eq!(classify("s3://bucket/x").unwrap(), StorageKind::Remote);
    assert_eq!(classify("file:///tmp/x").unwrap(), StorageKind::Local);
    for location in ["ftp://x", "https://x", "/tmp/x", "tmp/x", "", "s3:/x", "file:/x", "S3://x"] {
        match classify(location) {
            Err(Error::StorageClassification(m)) => assert_eq!(m, NO_SCHEME),
            other => panic!("{} was classified: {:?}", location, other),
        }
    }
}

#[test]
fn classify_reads_characters_not_bytes() {
    assert_eq!(classify("s3://bücket/ключ").unwrap(), StorageKind::Remote);
    assert_eq!(classify("file:///données/été").unwrap(), StorageKind::Local);
    assert_eq!(strip_file_prefix("file:///données/été").unwrap(), "/données/été");
    assert!(classify("é3://x").is_err());
}

#[test]
fn aws_config_without_endpoint() {
    assert_eq!(
        aws_config(None),
        StorageOptions {
            force_credential_load: true,
            allow_unsafe_rename: true,
            endpoint_url: None,
            allow_http: false,
        }
    );
}

#[test]
fn aws_config_passes_endpoint_and_allows_http() {
    assert_eq!(
        aws_config(Some("http://localhost:9000")),
        StorageOptions {
            force_credential_load: true,
            allow_unsafe_rename: true,
            endpoint_url: Some("http://localhost:9000".to_string()),
            allow_http: true,
        }
    );
}

#[test]
fn route_strips_the_scheme_of_a_local_table() {
    assert_eq!(
        route("file:///tmp/lake/tb1", Some("http://localhost:9000")).unwrap(),
        StorageAccess::Local { path: "/tmp/lake/tb1".to_string() }
    );
}

#[test]
fn route_keeps_a_remote_location_and_adds_options() {
    assert_eq!(
        route("s3://datalake/tb1", None).unwrap(),
        StorageAccess::Remote { uri: "s3://datalake/tb1".to_string(), options: aws_config(None) }
    );
    assert_eq!(
        route("s3://datalake/tb1", Some("https://minio.local")).unwrap(),
        StorageAccess::Remote {
            uri: "s3://datalake/tb1".to_string(),
            options: aws_config(Some("https://minio.local")),
        }
    );
}

#[test]
fn route_refuses_other_schemes() {
    for location in ["ftp://x", "https://x", "x", ""] {
        match route(location, None) {
            Err(Error::StorageClassification(m)) => assert_eq!(m, NO_SCHEME),
            other => panic!("{} was routed: {:?}", location, other),
        }
    }
}

#[test]
fn delta_joins_root_and_table_with_a_slash() {
    let sink = Delta::new("file:///tmp/lake");
    assert_eq!(sink.full_path("tb1"), "file:///tmp/lake/tb1");
    assert_eq!(Delta::new("").full_path(""), "/");
    assert_eq!(Delta::new("s3://b/").full_path("t"), "s3://b//t");
}

#[test]
fn delta_write_routes_the_full_path() {
    let sink = Delta::new("file:///tmp/lake");
    assert_eq!(
        sink.write("tb1", None).unwrap(),
        StorageAccess::Local { path: "/tmp/lake/tb1".to_string() }
    );
    let sink = Delta::new("s3://datalake");
    assert_eq!(
        sink.write("tb1", None).unwrap(),
        StorageAccess::Remote { uri: "s3://datalake/tb1".to_string(), options: aws_config(None) }
    );
    assert!(matches!(Delta::new("ftp://x").write("tb1", None), Err(Error::StorageClassification(_))));
}

#[test]
fn delta_merge_takes_the_table_path_as_it_is() {
    let sink = Delta::new("s3://ignored");
    assert_eq!(
        sink.merge_update("file:///tmp/lake/tb1", "Name", &["Age", "City"], None).unwrap(),
        MergeRequest {
            access: StorageAccess::Local { path: "/tmp/lake/tb1".to_string() },
            key_column: "Name".to_string(),
            update_columns: vec!["Age".to_string(), "City".to_string()],
        }
    );
    match sink.merge_update("tb1", "Name", &[], None) {
        Err(Error::StorageClassification(m)) => assert_eq!(m, NO_SCHEME),
        other => panic!("unexpected: {:?}", other),
    }
}
