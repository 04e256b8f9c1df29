use dlrs_tee::commitment::ZkCommitment;

#[test]
fn test_compatibility_check() {
    let c1 = ZkCommitment { committed_m: 10, committed_n: 8, ..ZkCommitment::default() };
    let c2 = ZkCommitment { committed_m: 8, committed_n: 5, ..ZkCommitment::default() };
    let c3 = ZkCommitment { committed_m: 7, committed_n: 5, ..ZkCommitment::default() };
    assert!(c1.is_compatible(&c2)); // 10x8 * 8x5 = OK
    assert!(!c1.is_compatible(&c3)); // 10x8 * 7x5 = NO
}

#[test]
fn test_default_commitment() {
    let c = ZkCommitment::default();
    assert_eq!(c.committed_rank, 0);
    assert!(c.root_commitment.is_empty());
}

#[test]
fn test_merge_commitments() {
    let a = ZkCommitment {
        root_commitment: ZkCommitment::hash_str("left"),
        committed_rank: 3,
        committed_m: 10,
        committed_n: 8,
        ..ZkCommitment::default()
    };
    let b = ZkCommitment {
        root_commitment: ZkCommitment::hash_str("right"),
        committed_rank: 2,
        committed_m: 8,
        committed_n: 5,
        ..ZkCommitment::default()
    };
    let merged = ZkCommitment::merge(&a, &b);
    assert_eq!(merged.committed_rank, 5);
    assert_eq!(merged.committed_m, 10);
    assert_eq!(merged.committed_n, 5);
    assert_eq!(merged.root_commitment.len(), 64);
    assert!(merged.u_commitment.starts_with("merged:"));
    assert_eq!(&merged.u_commitment[7..], &merged.root_commitment[..16]);
    assert_eq!(&merged.sigma_commitment[7..], &merged.root_commitment[16..32]);
    assert_eq!(&merged.v_commitment[7..], &merged.root_commitment[32..48]);
    assert!(merged.blinding_hash.is_empty());
}

#[test]
fn test_hash_known_values() {
    // Standard SHA-256 test vectors, hexadecimal form.
    assert_eq!(
        ZkCommitment::hash_str(""),
        "e3b0c44298fc1c149afbf4c8996fb92427ae41e4649b934ca495991b7852b855"
    );
    assert_eq!(
        ZkCommitment::hash_bytes(b"abc"),
        "ba7816bf8f01cfea414140de5dae2223b00361a396177a9cb410ff61f20015ad"
    );
    assert_eq!(ZkCommitment::hash_str("abc"), ZkCommitment::hash_bytes(b"abc"));
}
