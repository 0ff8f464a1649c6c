//! The rules for paths, tokens and registered folders.

use aeroshare::folders::validate_shared_folder;
use aeroshare::messages::{FileMetadata, SharedFolder};
use aeroshare::paths::{is_safe_relative_path, PathStyle};
use aeroshare::secrets::secure_eq;

#[test]
fn safe_relative_path_rejects_traversal_and_absolute_paths() {
    assert!(is_safe_relative_path("folder/file.txt"));
    assert!(is_safe_relative_path("file.txt"));
    assert!(!is_safe_relative_path(""));
    assert!(!is_safe_relative_path("../file.txt"));
    assert!(!is_safe_relative_path("folder/../file.txt"));
    assert!(!is_safe_relative_path("/tmp/file.txt"));
    assert!(!PathStyle::Windows.is_safe("C:\\tmp\\file.txt"));
}

#[test]
fn secure_eq_matches_only_equal_strings() {
    assert!(secure_eq("same-token", "same-token"));
    assert!(!secure_eq("same-token", "other-token"));
    assert!(!secure_eq("same-token", "same-token-extra"));
}

#[test]
fn registration_validation_rejects_unsafe_or_duplicate_paths() {
    let invalid = SharedFolder {
        files: vec![FileMetadata {
            path: "../secret.txt".into(),
            size: 1,
        }],
    };
    assert!(validate_shared_folder(invalid, 1024).is_err());

    let duplicate = SharedFolder {
        files: vec![
            FileMetadata {
                path: "file.txt".into(),
                size: 1,
            },
            FileMetadata {
                path: "file.txt".into(),
                size: 1,
            },
        ],
    };
    assert!(validate_shared_folder(duplicate, 1024).is_err());
}

#[test]
fn registration_validation_rejects_files_over_stream_limit() {
    let folder = SharedFolder {
        files: vec![FileMetadata {
            path: "large.bin".into(),
            size: 2048,
        }],
    };
    assert!(validate_shared_folder(folder, 1024).is_err());
}
