use gcs_cromwell_cleaner::locator::{parse_gsutil_path, GsPath, InvalidLocator};

#[test]
fn test_parse_gsutil_path() {
    let gs_path = parse_gsutil_path("gs://my-bucket/my_folder/").unwrap();
    assert_eq!(gs_path.bucket, "my-bucket");
    assert_eq!(gs_path.folder, "my_folder/");

    let gs_path = parse_gsutil_path("gs://my-bucket/my_folder/my_obj.txt").unwrap();
    assert_eq!(gs_path.bucket, "my-bucket");
    assert_eq!(gs_path.folder, "my_folder/my_obj.txt");
}

#[test]
#[should_panic]
fn test_parse_gsutil_path_no_prefix() {
    let gs_path = parse_gsutil_path("my-bucket/my_folder/my_obj.txt").unwrap();
    assert_eq!(gs_path.bucket, "my-bucket");
    assert_eq!(gs_path.folder, "my_folder/my_obj.txt");
}

#[test]
#[should_panic]
fn test_parse_gsutil_path_no_folder() {
    let gs_path = parse_gsutil_path("gs://my-bucket").unwrap();
    assert_eq!(gs_path.bucket, "my-bucket");
    assert_eq!(gs_path.folder, "my_folder/my_obj.txt");
}

#[test]
fn missing_scheme_is_reported() {
    assert_eq!(
        parse_gsutil_path("my-bucket/my_folder/my_obj.txt"),
        Err(InvalidLocator::MissingScheme)
    );
    assert_eq!(parse_gsutil_path(""), Err(InvalidLocator::MissingScheme));
    assert_eq!(parse_gsutil_path("gs:/bucket/folder"), Err(InvalidLocator::MissingScheme));
    assert_eq!(parse_gsutil_path("GS://bucket/folder"), Err(InvalidLocator::MissingScheme));
    assert_eq!(parse_gsutil_path(" gs://bucket/folder"), Err(InvalidLocator::MissingScheme));
    assert_eq!(parse_gsutil_path("s3://bucket/folder"), Err(InvalidLocator::MissingScheme));
}

#[test]
fn missing_folder_is_reported() {
    assert_eq!(parse_gsutil_path("gs://my-bucket"), Err(InvalidLocator::MissingFolder));
    assert_eq!(parse_gsutil_path("gs://"), Err(InvalidLocator::MissingFolder));
}

#[test]
fn folder_is_kept_as_written() {
    let expect = |bucket: &str, folder: &str| {
        Ok(GsPath { bucket: bucket.to_string(), folder: folder.to_string() })
    };
    assert_eq!(parse_gsutil_path("gs://b/f"), expect("b", "f"));
    assert_eq!(parse_gsutil_path("gs://b/f/"), expect("b", "f/"));
    assert_eq!(parse_gsutil_path("gs://b/f//"), expect("b", "f//"));
    assert_eq!(parse_gsutil_path("gs://b/a/b/c.txt"), expect("b", "a/b/c.txt"));
    assert_eq!(parse_gsutil_path("gs://b//f"), expect("b", "/f"));
    assert_eq!(parse_gsutil_path("gs://b/gs://c/d"), expect("b", "gs://c/d"));
}

#[test]
fn whole_bucket_is_no_folder() {
    assert_eq!(parse_gsutil_path("gs://my-bucket/"), Err(InvalidLocator::MissingFolder));
    assert_eq!(parse_gsutil_path("gs://b/"), Err(InvalidLocator::MissingFolder));
}

#[test]
fn bucket_must_be_named() {
    assert_eq!(parse_gsutil_path("gs:///f"), Err(InvalidLocator::MissingBucket));
    assert_eq!(parse_gsutil_path("gs:///folder/file"), Err(InvalidLocator::MissingBucket));
    assert_eq!(parse_gsutil_path("gs:///"), Err(InvalidLocator::MissingBucket));
    assert_eq!(parse_gsutil_path("gs:////"), Err(InvalidLocator::MissingBucket));
}

#[test]
fn parsed_locator_names_bucket_and_folder() {
    for path in [
        "gs://b/f",
        "gs://my-bucket/my_folder/",
        "gs://b//",
        "gs://b/ ",
        "gs://b",
        "gs://",
        "gs:///",
        "gs://b/",
        "gs:/b/f",
        "",
    ] {
        if let Ok(locator) = parse_gsutil_path(path) {
            assert!(!locator.bucket.is_empty(), "{}", path);
            assert!(!locator.bucket.contains('/'), "{}", path);
            assert!(!locator.folder.is_empty(), "{}", path);
            assert_eq!(format!("gs://{}/{}", locator.bucket, locator.folder), path);
        }
    }
    assert!(parse_gsutil_path("gs://b//").is_ok());
    assert!(parse_gsutil_path("gs://b/ ").is_ok());
}

#[test]
fn characters_outside_ascii_are_counted_as_one() {
    let path = parse_gsutil_path("gs://b\u{fc}cket/ordn\u{e9}r/\u{65e5}\u{672c}/").unwrap();
    assert_eq!(path.bucket, "b\u{fc}cket");
    assert_eq!(path.folder, "ordn\u{e9}r/\u{65e5}\u{672c}/");
}

#[test]
fn locator_messages() {
    assert_eq!(
        InvalidLocator::MissingScheme.message(),
        "Invalid gsutil path format, no gs:// prefix"
    );
    assert_eq!(
        InvalidLocator::MissingBucket.message(),
        "Invalid gsutil path format, no bucket specified"
    );
    assert_eq!(
        InvalidLocator::MissingFolder.message(),
        "Invalid gsutil path format, no folder specified"
    );
}

#[test]
fn locator_clone_is_equal() {
    let path = parse_gsutil_path("gs://my-bucket/my_folder/").unwrap();
    assert_eq!(path.clone(), path);
}
