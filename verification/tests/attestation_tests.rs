use dlrs_tee::attestation::{
    generate_quote, mutual_attestation, verify_quote, AttestationPolicy, AttestationVerdict,
};
use dlrs_tee::enclave::{TeeBackend, TeeEnclave};

#[test]
fn test_generate_and_verify_quote() {
    let enclave = TeeEnclave::new(TeeBackend::Simulated).unwrap();
    let quote = generate_quote(&enclave, "test-nonce-123");

    assert_eq!(quote.nonce, "test-nonce-123");
    assert_eq!(quote.backend, TeeBackend::Simulated);
    assert!(!quote.signature.is_empty());

    let policy = AttestationPolicy::default();
    let verdict = verify_quote(&quote, &policy);
    assert!(verdict.is_trusted());
}

#[test]
fn test_strict_policy_rejects_simulated() {
    let enclave = TeeEnclave::new(TeeBackend::Simulated).unwrap();
    let quote = generate_quote(&enclave, "nonce");

    let policy = AttestationPolicy::strict(vec![]);
    let verdict = verify_quote(&quote, &policy);
    assert!(!verdict.is_trusted());
}

#[test]
fn test_expired_quote() {
    let enclave = TeeEnclave::new(TeeBackend::Simulated).unwrap();
    let mut quote = generate_quote(&enclave, "nonce");
    quote.timestamp -= 2 * 3600;

    let policy = AttestationPolicy::default(); // max 3600s
    let verdict = verify_quote(&quote, &policy);
    assert!(matches!(verdict, AttestationVerdict::Expired));
}

#[test]
fn test_tampered_quote() {
    let enclave = TeeEnclave::new(TeeBackend::Simulated).unwrap();
    let mut quote = generate_quote(&enclave, "nonce");
    quote.measurement.isv_svn = 99; // tamper

    let policy = AttestationPolicy::default();
    let verdict = verify_quote(&quote, &policy);
    assert!(matches!(verdict, AttestationVerdict::Invalid { .. }));
}

#[test]
fn test_mutual_attestation() {
    let enclave_a = TeeEnclave::new(TeeBackend::Simulated).unwrap();
    let enclave_b = TeeEnclave::new(TeeBackend::Simulated).unwrap();

    let quote_b = generate_quote(&enclave_b, "nonce-from-a");
    let policy = AttestationPolicy::default();

    let (quote_a, verdict) = mutual_attestation(&enclave_a, &quote_b, &policy).unwrap();
    assert!(verdict.is_trusted());
    assert!(!quote_a.signature.is_empty());
}

#[test]
fn test_svn_check() {
    let enclave = TeeEnclave::new(TeeBackend::Simulated).unwrap();
    let quote = generate_quote(&enclave, "nonce");

    let mut policy = AttestationPolicy::default();
    policy.min_svn = 99; // higher than the enclave's SVN of 1

    let verdict = verify_quote(&quote, &policy);
    assert!(!verdict.is_trusted());
}
