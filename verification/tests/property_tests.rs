use dlrs_tee::attestation::{generate_quote, verify_quote, AttestationPolicy, AttestationVerdict};
use dlrs_tee::enclave::{EnclaveMeasurement, TeeBackend, TeeEnclave};
use dlrs_tee::sealed_storage::{SealedIndex, SealedStorage};
use dlrs_tee::secure_channel::{ChannelState, SecureChannel};
use dlrs_tee::TeeError;

#[test]
fn seal_round_trip_many_inputs() {
    let mut enclave = TeeEnclave::new(TeeBackend::Simulated).unwrap();
    let cases: Vec<(&str, Vec<u8>)> = vec![
        ("empty", vec![]),
        ("one", vec![0u8]),
        ("block-edge", (0u8..32).collect()),
        ("long", (0u8..255).cycle().take(1000).collect()),
    ];
    for (key, plaintext) in &cases {
        enclave.seal(key, plaintext).unwrap();
    }
    for (key, plaintext) in &cases {
        assert_eq!(&enclave.unseal(key).unwrap(), plaintext);
    }
}

#[test]
fn seal_replaces_prior_value() {
    let mut enclave = TeeEnclave::new(TeeBackend::Simulated).unwrap();
    enclave.seal("k", b"first").unwrap();
    enclave.seal("k", b"second").unwrap();
    assert_eq!(enclave.unseal("k").unwrap(), b"second");
    assert_eq!(enclave.sealed_keys().len(), 1);
}

#[test]
fn unseal_missing_key_not_found() {
    let enclave = TeeEnclave::new(TeeBackend::Simulated).unwrap();
    match enclave.unseal("absent") {
        Err(TeeError::KeyNotFound(k)) => assert_eq!(k, "absent"),
        other => panic!("expected KeyNotFound, got {:?}", other),
    }
}

#[test]
fn deterministic_quote_signature() {
    let enclave = TeeEnclave::new(TeeBackend::Simulated).unwrap();
    let q1 = generate_quote(&enclave, "same-nonce");
    let q2 = generate_quote(&enclave, "same-nonce");
    assert_eq!(q1.signature, q2.signature);

    let q3 = generate_quote(&enclave, "other-nonce");
    assert_ne!(q1.signature, q3.signature);
}

#[test]
fn min_svn_flips_verdict_only() {
    let enclave = TeeEnclave::new(TeeBackend::Simulated).unwrap();
    let quote = generate_quote(&enclave, "nonce");

    let policy = AttestationPolicy::default();
    assert!(verify_quote(&quote, &policy).is_trusted());

    let mut raised = policy.clone();
    raised.min_svn = quote.measurement.isv_svn + 1;
    match verify_quote(&quote, &raised) {
        AttestationVerdict::Untrusted { reason } => {
            assert_eq!(reason, "SVN below policy minimum");
        }
        other => panic!("expected Untrusted, got {:?}", other),
    }
}

#[test]
fn replay_rejected_with_reason() {
    let enclave_a = TeeEnclave::new(TeeBackend::Simulated).unwrap();
    let enclave_b = TeeEnclave::new(TeeBackend::Simulated).unwrap();
    let mut channel_a = SecureChannel::new(&enclave_a.id, AttestationPolicy::default());
    let mut channel_b = SecureChannel::new(&enclave_b.id, AttestationPolicy::default());
    let init = channel_a.initiate_handshake(&enclave_a);
    let response = channel_b.respond_to_handshake(&enclave_b, &init);
    channel_a.complete_handshake(&response, &init.dh_public).unwrap();

    let msg = channel_a.encrypt_message(b"payload").unwrap();
    assert_eq!(channel_b.decrypt_message(&msg).unwrap(), b"payload");
    match channel_b.decrypt_message(&msg) {
        Err(TeeError::IntegrityError(reason)) => assert_eq!(reason, "Replay detected"),
        other => panic!("expected replay rejection, got {:?}", other),
    }
}

#[test]
fn session_symmetry_both_directions() {
    let enclave_a = TeeEnclave::new(TeeBackend::Simulated).unwrap();
    let enclave_b = TeeEnclave::new(TeeBackend::Simulated).unwrap();
    let mut channel_a = SecureChannel::new(&enclave_a.id, AttestationPolicy::default());
    let mut channel_b = SecureChannel::new(&enclave_b.id, AttestationPolicy::default());
    let init = channel_a.initiate_handshake(&enclave_a);
    let response = channel_b.respond_to_handshake(&enclave_b, &init);
    channel_a.complete_handshake(&response, &init.dh_public).unwrap();

    let from_a = channel_a.encrypt_message(b"a to b").unwrap();
    assert_eq!(channel_b.decrypt_message(&from_a).unwrap(), b"a to b");

    let from_b = channel_b.encrypt_message(b"b to a").unwrap();
    assert_eq!(channel_a.decrypt_message(&from_b).unwrap(), b"b to a");
}

#[test]
fn end_to_end_scenario() {
    // Seal with one enclave, reload the storage, unseal into a second
    // enclave, then compute a proof over the re-sealed factors.
    let mut e = TeeEnclave::new(TeeBackend::Simulated).unwrap();
    let mut storage = SealedStorage::new("e2e-dir");
    storage
        .seal_adapter(&mut e, "a1", "x", vec![], 1, (2, 1), &[1u8, 2], &[3u8], &[4u8, 5])
        .unwrap();

    let mut index = SealedIndex::new();
    {
        let rec = storage.get_record("a1").unwrap();
        index.insert_record(dlrs_tee::sealed_storage::SealedAdapterRecord {
            adapter_id: rec.adapter_id.clone(),
            name: rec.name.clone(),
            domains: rec.domains.clone(),
            rank: rec.rank,
            original_dims: rec.original_dims,
            sealed_u: rec.sealed_u.clone(),
            sealed_sigma: rec.sealed_sigma.clone(),
            sealed_v: rec.sealed_v.clone(),
            integrity_hash: rec.integrity_hash.clone(),
            sealed_at: rec.sealed_at,
            enclave_id: rec.enclave_id.clone(),
        });
    }
    let storage2 = SealedStorage::from_index("e2e-dir", index);

    let mut e2 = TeeEnclave::new(TeeBackend::Simulated).unwrap();
    let (u, s, v) = storage2.unseal_adapter(&mut e2, "a1").unwrap();
    assert_eq!(u, vec![1u8, 2]);
    assert_eq!(s, vec![3u8]);
    assert_eq!(v, vec![4u8, 5]);

    let result = e2.enclave_compute_proof("a1", "domain", b"challenge").unwrap();
    // The capability score lies in (0, 1]: positive numerator, below one.
    assert!(result.capability_score.num >= 1);
    assert!(result.capability_score.num < result.capability_score.den);
    assert_eq!(result.capability_score.den, result.capability_score.num + 1);
    assert_eq!(result.proof_hash.len(), 64);
}

#[test]
fn rejected_handshake_leaves_no_key() {
    let enclave_a = TeeEnclave::new(TeeBackend::Simulated).unwrap();
    let enclave_b = TeeEnclave::new(TeeBackend::Simulated).unwrap();

    let mut channel_a = SecureChannel::new(&enclave_a.id, AttestationPolicy::default());
    let mut channel_b = SecureChannel::new(&enclave_b.id, AttestationPolicy::strict(vec![]));

    let init = channel_a.initiate_handshake(&enclave_a);
    let response = channel_b.respond_to_handshake(&enclave_b, &init);
    assert!(!response.accepted);
    assert_eq!(channel_b.state, ChannelState::Closed);
    assert!(!channel_b.is_established());

    let completion = channel_a.complete_handshake(&response, &init.dh_public);
    assert!(matches!(completion, Err(TeeError::AttestationError(_))));
    assert_eq!(channel_a.state, ChannelState::Closed);
    assert!(!channel_a.is_established());

    // Neither side can use the channel afterwards.
    assert!(channel_a.encrypt_message(b"x").is_err());
    assert!(channel_b.encrypt_message(b"x").is_err());
}

#[test]
fn message_on_closed_channel_fails() {
    let enclave = TeeEnclave::new(TeeBackend::Simulated).unwrap();
    let mut channel = SecureChannel::new(&enclave.id, AttestationPolicy::default());
    match channel.encrypt_message(b"data") {
        Err(TeeError::EnclaveError(reason)) => assert_eq!(reason, "Channel not established"),
        other => panic!("expected EnclaveError, got {:?}", other),
    }
}

#[test]
fn undecodable_ciphertext_rejected() {
    let enclave_a = TeeEnclave::new(TeeBackend::Simulated).unwrap();
    let enclave_b = TeeEnclave::new(TeeBackend::Simulated).unwrap();
    let mut channel_a = SecureChannel::new(&enclave_a.id, AttestationPolicy::default());
    let mut channel_b = SecureChannel::new(&enclave_b.id, AttestationPolicy::default());
    let init = channel_a.initiate_handshake(&enclave_a);
    let response = channel_b.respond_to_handshake(&enclave_b, &init);
    channel_a.complete_handshake(&response, &init.dh_public).unwrap();

    let mut msg = channel_a.encrypt_message(b"data").unwrap();
    msg.ciphertext = "zz".to_string(); // not hexadecimal at all
    assert!(matches!(channel_b.decrypt_message(&msg), Err(TeeError::SealingError(_))));
}

#[test]
fn message_envelope_is_hexadecimal() {
    let enclave_a = TeeEnclave::new(TeeBackend::Simulated).unwrap();
    let enclave_b = TeeEnclave::new(TeeBackend::Simulated).unwrap();
    let mut channel_a = SecureChannel::new(&enclave_a.id, AttestationPolicy::default());
    let mut channel_b = SecureChannel::new(&enclave_b.id, AttestationPolicy::default());
    let init = channel_a.initiate_handshake(&enclave_a);
    let response = channel_b.respond_to_handshake(&enclave_b, &init);
    channel_a.complete_handshake(&response, &init.dh_public).unwrap();

    let msg = channel_a.encrypt_message(&[0xABu8, 0xCD]).unwrap();
    assert_eq!(msg.ciphertext.len(), 4);
    assert!(msg.ciphertext.chars().all(|c| c.is_ascii_hexdigit()));
    assert_eq!(msg.mac.len(), 64);
    assert_eq!(msg.sequence, 0);
    // The ciphertext is a real encryption, not the plaintext re-encoded.
    assert_ne!(msg.ciphertext, "abcd");
}

#[test]
fn backend_names_and_hardware_flags() {
    assert_eq!(TeeBackend::IntelSgx.name(), "Intel SGX");
    assert_eq!(TeeBackend::ArmTrustZone.name(), "ARM TrustZone");
    assert_eq!(TeeBackend::Simulated.name(), "Simulated (software)");
    assert!(TeeBackend::IntelSgx.is_hardware());
    assert!(TeeBackend::ArmTrustZone.is_hardware());
    assert!(!TeeBackend::Simulated.is_hardware());
}

#[test]
fn measurement_svn_ordering() {
    let low = EnclaveMeasurement::compute("code", "signer", 1, 1);
    let high = EnclaveMeasurement::compute("code", "signer", 1, 2);
    // A newer security version matches an older expectation, not vice versa.
    assert!(high.matches(&low));
    assert!(!low.matches(&high));
}

#[test]
fn quote_binds_sealed_count() {
    let mut enclave = TeeEnclave::new(TeeBackend::Simulated).unwrap();
    let before = generate_quote(&enclave, "n");
    enclave.seal_matrix_factors("a", &[1u8], &[2u8], &[3u8]).unwrap();
    let after = generate_quote(&enclave, "n");
    assert_eq!(before.enclave_data.sealed_adapters, 0);
    assert_eq!(after.enclave_data.sealed_adapters, 1);
    assert_ne!(before.signature, after.signature);
}

#[test]
fn status_counts_bytes_and_items() {
    let mut enclave = TeeEnclave::new(TeeBackend::Simulated).unwrap();
    enclave.seal("k1", &[0u8; 10]).unwrap();
    let status = enclave.status();
    assert_eq!(status.sealed_items, 1);
    // nonce (16) + ciphertext (10) + MAC (32)
    assert_eq!(status.memory_usage_bytes, 58);
    enclave.remove("k1");
    assert_eq!(enclave.status().memory_usage_bytes, 0);
}

#[test]
fn identifiers_have_uuid_shape() {
    let enclave = TeeEnclave::new(TeeBackend::Simulated).unwrap();
    assert_eq!(enclave.id.len(), 36);
    let channel = SecureChannel::new(&enclave.id, AttestationPolicy::default());
    assert_eq!(channel.channel_id.len(), 36);
    assert_eq!(channel.local_enclave_id, enclave.id);
}
