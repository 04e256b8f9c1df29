use dlrs_tee::attestation::AttestationPolicy;
use dlrs_tee::enclave::{TeeBackend, TeeEnclave};
use dlrs_tee::secure_channel::{ChannelState, SecureChannel};

#[test]
fn test_full_handshake() {
    let enclave_a = TeeEnclave::new(TeeBackend::Simulated).unwrap();
    let enclave_b = TeeEnclave::new(TeeBackend::Simulated).unwrap();

    let policy = AttestationPolicy::default();
    let mut channel_a = SecureChannel::new(&enclave_a.id, policy.clone());
    let mut channel_b = SecureChannel::new(&enclave_b.id, policy);

    // Step 1: A initiates
    let init = channel_a.initiate_handshake(&enclave_a);
    assert_eq!(channel_a.state, ChannelState::Attesting);

    // Step 2: B responds
    let response = channel_b.respond_to_handshake(&enclave_b, &init);
    assert!(response.accepted);
    assert!(channel_b.is_established());

    // Step 3: A completes
    channel_a.complete_handshake(&response, &init.dh_public).unwrap();
    assert!(channel_a.is_established());
}

#[test]
fn test_encrypt_decrypt() {
    let enclave_a = TeeEnclave::new(TeeBackend::Simulated).unwrap();
    let enclave_b = TeeEnclave::new(TeeBackend::Simulated).unwrap();

    let policy = AttestationPolicy::default();
    let mut channel_a = SecureChannel::new(&enclave_a.id, policy.clone());
    let mut channel_b = SecureChannel::new(&enclave_b.id, policy);

    // Handshake
    let init = channel_a.initiate_handshake(&enclave_a);
    let response = channel_b.respond_to_handshake(&enclave_b, &init);
    channel_a.complete_handshake(&response, &init.dh_public).unwrap();

    // Encrypt on A
    let plaintext = b"secret adapter data: U=[1,2,3] S=[4,5] V=[6,7,8]";
    let msg = channel_a.encrypt_message(plaintext).unwrap();

    // Decrypt on B
    let decrypted = channel_b.decrypt_message(&msg).unwrap();
    assert_eq!(decrypted, plaintext);
}

#[test]
fn test_replay_protection() {
    let enclave_a = TeeEnclave::new(TeeBackend::Simulated).unwrap();
    let enclave_b = TeeEnclave::new(TeeBackend::Simulated).unwrap();

    let policy = AttestationPolicy::default();
    let mut channel_a = SecureChannel::new(&enclave_a.id, policy.clone());
    let mut channel_b = SecureChannel::new(&enclave_b.id, policy);

    let init = channel_a.initiate_handshake(&enclave_a);
    let response = channel_b.respond_to_handshake(&enclave_b, &init);
    channel_a.complete_handshake(&response, &init.dh_public).unwrap();

    let msg = channel_a.encrypt_message(b"test").unwrap();
    channel_b.decrypt_message(&msg).unwrap();

    // Replay the same message
    let result = channel_b.decrypt_message(&msg);
    assert!(result.is_err());
}

#[test]
fn test_tampered_message() {
    let enclave_a = TeeEnclave::new(TeeBackend::Simulated).unwrap();
    let enclave_b = TeeEnclave::new(TeeBackend::Simulated).unwrap();

    let policy = AttestationPolicy::default();
    let mut channel_a = SecureChannel::new(&enclave_a.id, policy.clone());
    let mut channel_b = SecureChannel::new(&enclave_b.id, policy);

    let init = channel_a.initiate_handshake(&enclave_a);
    let response = channel_b.respond_to_handshake(&enclave_b, &init);
    channel_a.complete_handshake(&response, &init.dh_public).unwrap();

    let mut msg = channel_a.encrypt_message(b"original").unwrap();
    msg.ciphertext = "deadbeef".to_string(); // tamper

    let result = channel_b.decrypt_message(&msg);
    assert!(result.is_err());
}

#[test]
fn test_strict_policy_rejection() {
    let enclave_a = TeeEnclave::new(TeeBackend::Simulated).unwrap();
    let enclave_b = TeeEnclave::new(TeeBackend::Simulated).unwrap();

    // B uses a strict policy that rejects simulated enclaves
    let strict = AttestationPolicy::strict(vec![]);
    let mut channel_a = SecureChannel::new(&enclave_a.id, AttestationPolicy::default());
    let mut channel_b = SecureChannel::new(&enclave_b.id, strict);

    let init = channel_a.initiate_handshake(&enclave_a);
    let response = channel_b.respond_to_handshake(&enclave_b, &init);
    assert!(!response.accepted);
    assert_eq!(channel_b.state, ChannelState::Closed);
}

#[test]
fn test_close_channel() {
    let enclave = TeeEnclave::new(TeeBackend::Simulated).unwrap();
    let mut channel = SecureChannel::new(&enclave.id, AttestationPolicy::default());
    channel.close();
    assert_eq!(channel.state, ChannelState::Closed);
    assert!(!channel.is_established());
}
