use rustus_storage::MemoryStorage;
use rustus_storage::RustusError;
use rustus_storage::Storage;

fn meta(pairs: &[(&str, &str)]) -> Vec<(String, String)> {
    pairs.iter().map(|(k, v)| (k.to_string(), v.to_string())).collect()
}

#[test]
fn prepare_always_succeeds() {
    let mut storage = MemoryStorage::new();
    assert_eq!(storage.prepare(), Ok(()));
}

#[test]
fn create_then_get_info_reports_fresh_descriptor() {
    let mut storage = MemoryStorage::new();
    let id = storage.create_file(Some(100), Some(meta(&[("k", "v")]))).unwrap();
    assert!(!id.is_empty());
    let info = storage.get_file_info(&id).unwrap();
    assert_eq!(info.id, id);
    assert_eq!(info.offset, 0);
    assert_eq!(info.length, 100);
    assert!(!info.deferred_size);
    assert_eq!(info.metadata, meta(&[("k", "v")]));
    assert!(!info.path.is_empty());
}

#[test]
fn create_without_size_defers_length() {
    let mut storage = MemoryStorage::new();
    let id = storage.create_file(None, None).unwrap();
    let info = storage.get_file_info(&id).unwrap();
    assert_eq!(info.offset, 0);
    assert_eq!(info.length, 0);
    assert!(info.deferred_size);
    assert!(info.metadata.is_empty());
}

#[test]
fn created_ids_are_distinct() {
    let mut storage = MemoryStorage::new();
    let a = storage.create_file(None, None).unwrap();
    let b = storage.create_file(None, None).unwrap();
    let c = storage.create_file(Some(1), None).unwrap();
    assert_ne!(a, b);
    assert_ne!(a, c);
    assert_ne!(b, c);
}

#[test]
fn end_to_end_upload_roundtrip() {
    let mut storage = MemoryStorage::new();
    let bytes: Vec<u8> = (0..100u8).collect();
    let id = storage.create_file(Some(100), Some(meta(&[("k", "v")]))).unwrap();
    assert_eq!(storage.add_bytes(&id, 0, &bytes[0..50]), Ok(50));
    assert_eq!(storage.add_bytes(&id, 50, &bytes[50..100]), Ok(100));
    assert_eq!(storage.get_contents(&id).unwrap(), bytes);
    assert_eq!(storage.remove_file(&id), Ok(()));
    assert_eq!(storage.get_file_info(&id).unwrap_err(), RustusError::NotFound);
}

#[test]
fn arbitrary_chunking_reconstructs_bytes() {
    let original: Vec<u8> = (0..=255u8).cycle().take(1000).collect();
    for chunk_sizes in [vec![1000], vec![1, 999], vec![137, 256, 400, 207], vec![500, 500]] {
        let mut storage = MemoryStorage::new();
        let id = storage.create_file(Some(1000), None).unwrap();
        let mut offset = 0usize;
        for size in chunk_sizes {
            let new_offset =
                storage.add_bytes(&id, offset, &original[offset..offset + size]).unwrap();
            assert_eq!(new_offset, offset + size);
            offset = new_offset;
        }
        assert_eq!(offset, original.len());
        assert_eq!(storage.get_contents(&id).unwrap(), original);
        assert_eq!(storage.get_file_info(&id).unwrap().offset, original.len());
    }
}

#[test]
fn wrong_offset_is_rejected_and_state_unchanged() {
    let mut storage = MemoryStorage::new();
    let id = storage.create_file(Some(10), None).unwrap();
    assert_eq!(storage.add_bytes(&id, 0, &[1, 2, 3]), Ok(3));
    // Too far ahead, already acknowledged, and a duplicate submission.
    for wrong in [4usize, 2, 0] {
        assert_eq!(storage.add_bytes(&id, wrong, &[9]).unwrap_err(), RustusError::IntegrityError);
    }
    assert_eq!(storage.get_file_info(&id).unwrap().offset, 3);
    assert_eq!(storage.get_contents(&id).unwrap(), vec![1, 2, 3]);
}

#[test]
fn second_submission_at_same_offset_fails_without_duplication() {
    let mut storage = MemoryStorage::new();
    let id = storage.create_file(None, None).unwrap();
    let first = storage.add_bytes(&id, 0, &[7, 7, 7]);
    let second = storage.add_bytes(&id, 0, &[7, 7, 7]);
    assert_eq!(first, Ok(3));
    assert_eq!(second.unwrap_err(), RustusError::IntegrityError);
    assert_eq!(storage.get_contents(&id).unwrap(), vec![7, 7, 7]);
    assert_eq!(storage.get_file_info(&id).unwrap().offset, 3);
}

#[test]
fn exceeding_declared_length_is_rejected() {
    let mut storage = MemoryStorage::new();
    let id = storage.create_file(Some(4), None).unwrap();
    assert_eq!(storage.add_bytes(&id, 0, &[0, 1, 2, 3, 4]).unwrap_err(),
        RustusError::IntegrityError);
    assert_eq!(storage.add_bytes(&id, 0, &[0, 1, 2, 3]), Ok(4));
    assert_eq!(storage.add_bytes(&id, 4, &[4]).unwrap_err(), RustusError::IntegrityError);
}

#[test]
fn deferred_upload_accepts_bytes_until_resolved() {
    let mut storage = MemoryStorage::new();
    let id = storage.create_file(None, None).unwrap();
    assert_eq!(storage.add_bytes(&id, 0, &[1, 2, 3, 4, 5]), Ok(5));
    let mut info = storage.get_file_info(&id).unwrap();
    assert!(info.deferred_size);
    info.length = 5;
    info.deferred_size = false;
    assert_eq!(storage.set_file_info(&info), Ok(()));
    let resolved = storage.get_file_info(&id).unwrap();
    assert_eq!(resolved.length, 5);
    assert!(!resolved.deferred_size);
    assert_eq!(storage.add_bytes(&id, 5, &[6]).unwrap_err(), RustusError::IntegrityError);
}

#[test]
fn removed_upload_is_not_found() {
    let mut storage = MemoryStorage::new();
    let id = storage.create_file(Some(100), None).unwrap();
    assert_eq!(storage.remove_file(&id), Ok(()));
    assert_eq!(storage.get_file_info(&id).unwrap_err(), RustusError::NotFound);
    assert_eq!(storage.add_bytes(&id, 0, &[1]).unwrap_err(), RustusError::NotFound);
    assert_eq!(storage.get_contents(&id).unwrap_err(), RustusError::NotFound);
    assert_eq!(storage.remove_file(&id).unwrap_err(), RustusError::NotFound);
}

#[test]
fn unknown_id_is_not_found() {
    let mut storage = MemoryStorage::new();
    assert_eq!(storage.get_file_info("missing").unwrap_err(), RustusError::NotFound);
    assert_eq!(storage.get_contents("missing").unwrap_err(), RustusError::NotFound);
    assert_eq!(storage.add_bytes("missing", 0, &[1]).unwrap_err(), RustusError::NotFound);
    assert_eq!(storage.remove_file("missing").unwrap_err(), RustusError::NotFound);
    assert_eq!(storage.set_file_info(
        &rustus_storage::FileInfo::new("missing", Some(1), "somewhere".to_string(), None),
    ).unwrap_err(), RustusError::NotFound);
}

#[test]
fn set_file_info_roundtrips_field_for_field() {
    let mut storage = MemoryStorage::new();
    let id = storage.create_file(Some(100), Some(meta(&[("k", "v")]))).unwrap();
    assert_eq!(storage.add_bytes(&id, 0, &[1, 2]), Ok(2));
    let mut d = storage.get_file_info(&id).unwrap();
    d.length = 200;
    d.metadata = meta(&[("k", "v"), ("owner", "tester")]);
    assert_eq!(storage.set_file_info(&d), Ok(()));
    let got = storage.get_file_info(&d.id).unwrap();
    assert_eq!(got.id, d.id);
    assert_eq!(got.offset, d.offset);
    assert_eq!(got.length, d.length);
    assert_eq!(got.path, d.path);
    assert_eq!(got.created_at, d.created_at);
    assert_eq!(got.deferred_size, d.deferred_size);
    assert_eq!(got.metadata, d.metadata);
    // The bytes are untouched by a descriptor replacement.
    assert_eq!(storage.get_contents(&id).unwrap(), vec![1, 2]);
}

#[test]
fn set_file_info_rejects_inconsistent_descriptors() {
    let mut storage = MemoryStorage::new();
    let id = storage.create_file(Some(10), None).unwrap();
    assert_eq!(storage.add_bytes(&id, 0, &[1, 2, 3]), Ok(3));

    // A descriptor that forgets confirmed bytes would drop an append.
    let mut stale = storage.get_file_info(&id).unwrap();
    stale.offset = 0;
    assert_eq!(storage.set_file_info(&stale).unwrap_err(), RustusError::IntegrityError);

    // A resolved size never reverts to deferred.
    let mut revert = storage.get_file_info(&id).unwrap();
    revert.deferred_size = true;
    assert_eq!(storage.set_file_info(&revert).unwrap_err(), RustusError::IntegrityError);

    // The offset may not run past the declared length.
    let mut shrunk = storage.get_file_info(&id).unwrap();
    shrunk.length = 2;
    assert_eq!(storage.set_file_info(&shrunk).unwrap_err(), RustusError::IntegrityError);

    // Metadata must stay a mapping: duplicate keys are refused.
    let mut duplicated = storage.get_file_info(&id).unwrap();
    duplicated.metadata = meta(&[("k", "a"), ("k", "b")]);
    assert_eq!(storage.set_file_info(&duplicated).unwrap_err(), RustusError::IntegrityError);

    // Nothing changed.
    let info = storage.get_file_info(&id).unwrap();
    assert_eq!(info.offset, 3);
    assert_eq!(info.length, 10);
    assert!(!info.deferred_size);
}

#[test]
fn uploads_are_independent() {
    let mut storage = MemoryStorage::new();
    let a = storage.create_file(Some(3), None).unwrap();
    let b = storage.create_file(None, None).unwrap();
    assert_eq!(storage.add_bytes(&a, 0, &[1, 2, 3]), Ok(3));
    assert_eq!(storage.add_bytes(&b, 0, &[9]), Ok(1));
    assert_eq!(storage.remove_file(&a), Ok(()));
    assert_eq!(storage.get_contents(&b).unwrap(), vec![9]);
    assert_eq!(storage.get_file_info(&b).unwrap().offset, 1);
}
