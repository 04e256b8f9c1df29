use dlrs_tee::enclave::{EnclaveMeasurement, SecurityLevel, TeeBackend, TeeEnclave};

#[test]
fn test_create_enclave() {
    let enclave = TeeEnclave::new(TeeBackend::Simulated).unwrap();
    assert_eq!(enclave.backend, TeeBackend::Simulated);
    assert_eq!(enclave.security_level(), SecurityLevel::Software);
    let status = enclave.status();
    assert!(status.is_healthy);
    assert_eq!(status.sealed_items, 0);
}

#[test]
fn test_seal_unseal() {
    let mut enclave = TeeEnclave::new(TeeBackend::Simulated).unwrap();
    let data = b"secret matrix factors here";
    enclave.seal("test-key", data).unwrap();
    assert!(enclave.contains("test-key"));

    let recovered = enclave.unseal("test-key").unwrap();
    assert_eq!(recovered, data);
}

#[test]
fn test_seal_unseal_matrix_factors() {
    let mut enclave = TeeEnclave::new(TeeBackend::Simulated).unwrap();
    let u = vec![1u8, 2, 3, 4];
    let s = vec![5u8, 6];
    let v = vec![7u8, 8, 9];

    enclave.seal_matrix_factors("adapter-123", &u, &s, &v).unwrap();

    let (ru, rs, rv) = enclave.unseal_matrix_factors("adapter-123").unwrap();
    assert_eq!(ru, u);
    assert_eq!(rs, s);
    assert_eq!(rv, v);
}

#[test]
fn test_enclave_compute_proof() {
    let mut enclave = TeeEnclave::new(TeeBackend::Simulated).unwrap();
    let u = vec![1u8, 2, 3, 4];
    let s = vec![5u8, 6];
    let v = vec![7u8, 8, 9];

    enclave.seal_matrix_factors("proof-adapter", &u, &s, &v).unwrap();

    let result = enclave
        .enclave_compute_proof("proof-adapter", "nlp", b"challenge-nonce")
        .unwrap();

    assert!(!result.proof_hash.is_empty());
    assert!(result.capability_score.num >= 1 && result.capability_score.num < result.capability_score.den);
    assert_eq!(result.security_level, SecurityLevel::Software);
}

#[test]
fn test_measurement() {
    let m1 = EnclaveMeasurement::compute("code-v1", "signer-a", 1, 1);
    let m2 = EnclaveMeasurement::compute("code-v1", "signer-a", 1, 1);
    let m3 = EnclaveMeasurement::compute("code-v2", "signer-a", 1, 1);

    assert!(m1.matches(&m2));
    assert!(!m1.matches(&m3));
}

#[test]
fn enclave_test_remove_sealed() {
    let mut enclave = TeeEnclave::new(TeeBackend::Simulated).unwrap();
    enclave.seal("k1", b"data1").unwrap();
    enclave.seal("k2", b"data2").unwrap();
    assert_eq!(enclave.sealed_keys().len(), 2);

    assert!(enclave.remove("k1"));
    assert!(!enclave.contains("k1"));
    assert_eq!(enclave.sealed_keys().len(), 1);
}
