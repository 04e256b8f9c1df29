use dlrs_tee::enclave::{TeeBackend, TeeEnclave};
use dlrs_tee::sealed_storage::{SealedAdapterRecord, SealedIndex, SealedStorage};
use dlrs_tee::TeeError;

/// A deep copy of a record, field by field.
fn copy_record(rec: &SealedAdapterRecord) -> SealedAdapterRecord {
    SealedAdapterRecord {
        adapter_id: rec.adapter_id.clone(),
        name: rec.name.clone(),
        domains: rec.domains.clone(),
        rank: rec.rank,
        original_dims: rec.original_dims,
        sealed_u: rec.sealed_u.clone(),
        sealed_sigma: rec.sealed_sigma.clone(),
        sealed_v: rec.sealed_v.clone(),
        integrity_hash: rec.integrity_hash.clone(),
        sealed_at: rec.sealed_at,
        enclave_id: rec.enclave_id.clone(),
    }
}

/// Rebuild a storage manager from another's records, as an application does
/// after reading the persisted index back from its directory.
fn reload(storage: &SealedStorage, ids: &[&str], dir: &str) -> SealedStorage {
    let mut index = SealedIndex::new();
    for id in ids {
        let rec = storage.get_record(id).unwrap();
        index.insert_record(copy_record(rec));
    }
    SealedStorage::from_index(dir, index)
}

#[test]
fn test_seal_and_unseal_adapter() {
    let mut enclave = TeeEnclave::new(TeeBackend::Simulated).unwrap();
    let mut storage = SealedStorage::new("sealed-test-dir");

    let u = vec![1u8, 2, 3, 4];
    let s = vec![5u8, 6];
    let v = vec![7u8, 8, 9, 10, 11, 12];

    storage
        .seal_adapter(
            &mut enclave,
            "test-adapter-1",
            "my-lora",
            vec!["nlp".to_string()],
            2,
            (2, 3),
            &u,
            &s,
            &v,
        )
        .unwrap();

    assert_eq!(storage.count(), 1);

    // Unseal with a fresh enclave (simulates restart)
    let mut enclave2 = TeeEnclave::new(TeeBackend::Simulated).unwrap();
    let (ru, rs, rv) = storage.unseal_adapter(&mut enclave2, "test-adapter-1").unwrap();
    assert_eq!(ru, u);
    assert_eq!(rs, s);
    assert_eq!(rv, v);
}

#[test]
fn test_persistence() {
    let mut enclave = TeeEnclave::new(TeeBackend::Simulated).unwrap();

    let mut storage = SealedStorage::new("persist-test-dir");
    storage
        .seal_adapter(
            &mut enclave,
            "persist-adapter",
            "test",
            vec!["vision".to_string()],
            4,
            (8, 8),
            &[1u8, 2],
            &[3u8],
            &[4u8, 5],
        )
        .unwrap();

    // Reload from the persisted records
    let storage = reload(&storage, &["persist-adapter"], "persist-test-dir");
    assert_eq!(storage.count(), 1);
    let record = storage.get_record("persist-adapter").unwrap();
    assert_eq!(record.name, "test");
    assert_eq!(record.rank, 4);
}

#[test]
fn sealed_storage_test_remove_sealed() {
    let mut enclave = TeeEnclave::new(TeeBackend::Simulated).unwrap();
    let mut storage = SealedStorage::new("rm-test-dir");

    storage
        .seal_adapter(&mut enclave, "rm-1", "a", vec![], 2, (4, 4), &[1u8], &[2u8], &[3u8])
        .unwrap();
    storage
        .seal_adapter(&mut enclave, "rm-2", "b", vec![], 2, (4, 4), &[4u8], &[5u8], &[6u8])
        .unwrap();

    assert_eq!(storage.count(), 2);
    storage.remove_sealed("rm-1").unwrap();
    assert_eq!(storage.count(), 1);
}

#[test]
fn test_list_sealed() {
    let mut enclave = TeeEnclave::new(TeeBackend::Simulated).unwrap();
    let mut storage = SealedStorage::new("list-test-dir");

    storage
        .seal_adapter(
            &mut enclave,
            "list-1",
            "alpha",
            vec!["nlp".to_string()],
            4,
            (8, 8),
            &[1u8],
            &[2u8],
            &[3u8],
        )
        .unwrap();
    storage
        .seal_adapter(
            &mut enclave,
            "list-2",
            "beta",
            vec!["vision".to_string()],
            8,
            (16, 16),
            &[4u8],
            &[5u8],
            &[6u8],
        )
        .unwrap();

    let records = storage.list_sealed();
    assert_eq!(records.len(), 2);
}

#[test]
fn test_integrity_check() {
    let mut enclave = TeeEnclave::new(TeeBackend::Simulated).unwrap();
    let mut storage = SealedStorage::new("tamper-test-dir");
    storage
        .seal_adapter(&mut enclave, "test", "t", vec![], 1, (1, 1), b"data", &[1u8], &[2u8])
        .unwrap();

    // Tamper with the stored blob: flip the first hexadecimal digit of the
    // sealed left factor.
    let rec = storage.get_record("test").unwrap();
    let mut tampered = copy_record(rec);
    let mut chars: Vec<char> = tampered.sealed_u.chars().collect();
    chars[20] = if chars[20] == '0' { '1' } else { '0' };
    tampered.sealed_u = chars.into_iter().collect();
    let mut index = SealedIndex::new();
    index.insert_record(tampered);
    let storage2 = SealedStorage::from_index("tamper-test-dir", index);

    // Unseal must fail closed with an integrity error.
    let mut enclave2 = TeeEnclave::new(TeeBackend::Simulated).unwrap();
    let result = storage2.unseal_adapter(&mut enclave2, "test");
    assert!(matches!(result, Err(TeeError::IntegrityError(_))));
}
