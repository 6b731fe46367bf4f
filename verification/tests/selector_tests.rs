use core::str::FromStr;

use rustus_storage::AvailableStores;
use rustus_storage::RustusError;
use rustus_storage::ident::u64_to_dec;
use rustus_storage::FileInfo;

#[test]
fn selector_parses_known_tokens() {
    assert_eq!(AvailableStores::from_config("file_storage"), Ok(AvailableStores::FileStorage));
    assert_eq!(
        AvailableStores::from_config("sqlite_file_storage"),
        Ok(AvailableStores::SqliteFileStorage)
    );
    assert_eq!(AvailableStores::from_str("file_storage"), Ok(AvailableStores::FileStorage));
}

#[test]
fn selector_rejects_unknown_tokens() {
    assert_eq!(
        AvailableStores::from_config("s3_storage"),
        Err("Unknown storage type".to_string())
    );
    assert_eq!(
        AvailableStores::from_config(""),
        Err("Unknown storage type".to_string())
    );
    assert_eq!(
        AvailableStores::from_config("FILE_STORAGE"),
        Err("Unknown storage type".to_string())
    );
}

#[test]
fn selector_names_its_variants() {
    assert_eq!(AvailableStores::FileStorage.name(), "FileStorage");
    assert_eq!(AvailableStores::SqliteFileStorage.name(), "SqliteFileStorage");
}

#[test]
fn error_kinds_have_names() {
    assert_eq!(RustusError::NotFound.kind_name(), "not found");
    assert_eq!(RustusError::ConfigurationError.kind_name(), "configuration error");
    assert_eq!(RustusError::IOError.kind_name(), "input/output error");
    assert_eq!(RustusError::IntegrityError.kind_name(), "integrity error");
}

#[test]
fn decimal_identifiers_render_exactly() {
    assert_eq!(u64_to_dec(0), "0");
    assert_eq!(u64_to_dec(7), "7");
    assert_eq!(u64_to_dec(10), "10");
    assert_eq!(u64_to_dec(1234567890), "1234567890");
    assert_eq!(u64_to_dec(u64::MAX), "18446744073709551615");
}

#[test]
fn descriptor_constructor_fills_fields() {
    let info = FileInfo::new(
        "abc",
        Some(42),
        "dir/abc".to_string(),
        Some(vec![("k".to_string(), "v".to_string())]),
    );
    assert_eq!(info.id, "abc");
    assert_eq!(info.offset, 0);
    assert_eq!(info.length, 42);
    assert!(!info.deferred_size);
    assert_eq!(info.path, "dir/abc");
    assert_eq!(info.metadata, vec![("k".to_string(), "v".to_string())]);

    let deferred = FileInfo::new("d", None, "dir/d".to_string(), None);
    assert_eq!(deferred.length, 0);
    assert!(deferred.deferred_size);
    assert!(deferred.metadata.is_empty());
}

#[test]
fn cloned_descriptor_matches_original() {
    let info = FileInfo::new(
        "abc",
        Some(42),
        "dir/abc".to_string(),
        Some(vec![("k".to_string(), "v".to_string())]),
    );
    let copy = info.clone();
    assert_eq!(copy.id, info.id);
    assert_eq!(copy.offset, info.offset);
    assert_eq!(copy.length, info.length);
    assert_eq!(copy.path, info.path);
    assert_eq!(copy.created_at, info.created_at);
    assert_eq!(copy.deferred_size, info.deferred_size);
    assert_eq!(copy.metadata, info.metadata);
}

#[test]
fn append_check_decides_exactly() {
    let info = FileInfo::new("x", Some(10), "p".to_string(), None);
    assert_eq!(info.check_append(0, 5), Ok(5));
    assert_eq!(info.check_append(1, 5).unwrap_err(), RustusError::IntegrityError);
    assert_eq!(info.check_append(0, 11).unwrap_err(), RustusError::IntegrityError);
    assert_eq!(info.check_append(0, 10), Ok(10));

    let deferred = FileInfo::new("x", None, "p".to_string(), None);
    assert_eq!(deferred.check_append(0, 1_000_000), Ok(1_000_000));
}

#[test]
fn replacement_check_decides_exactly() {
    let stored = FileInfo::new("x", None, "p".to_string(), None);

    let mut resolved = stored.clone();
    resolved.length = 7;
    resolved.deferred_size = false;
    assert_eq!(stored.check_replacement(&resolved), Ok(()));

    let mut moved_offset = stored.clone();
    moved_offset.offset = 1;
    assert_eq!(
        stored.check_replacement(&moved_offset).unwrap_err(),
        RustusError::IntegrityError
    );

    let mut reverted = resolved.clone();
    reverted.deferred_size = true;
    assert_eq!(
        resolved.check_replacement(&reverted).unwrap_err(),
        RustusError::IntegrityError
    );

    let mut unnamed = stored.clone();
    unnamed.path = String::new();
    assert_eq!(
        stored.check_replacement(&unnamed).unwrap_err(),
        RustusError::IntegrityError
    );

    let mut duplicated = stored.clone();
    duplicated.metadata =
        vec![("k".to_string(), "a".to_string()), ("k".to_string(), "b".to_string())];
    assert_eq!(
        stored.check_replacement(&duplicated).unwrap_err(),
        RustusError::IntegrityError
    );
}
