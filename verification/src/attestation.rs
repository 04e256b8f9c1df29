//! Remote attestation: an enclave produces a quote binding its measurement
//! to a challenger's nonce, and a verifier holds quotes against a policy.
//! Verification is an ordered, short-circuiting chain of checks whose
//! outcome is pinned, for every clock reading, by [`spec_verify_quote`].

use vstd::prelude::*;
use vstd::utf8::encode_utf8;
use vstd::string::StringExecFns;
use vstd::bytes::{u16_to_le_bytes, u64_to_le_bytes, spec_u16_to_le_bytes, spec_u64_to_le_bytes};
use crate::bytesutil::{push_all, push_str_bytes};
use crate::hashing::{digest32, hex_of, sha256_hex};
use crate::enclave::{EnclaveMeasurement, SecurityLevel, TeeBackend, TeeEnclave};
use crate::platform::now_ts;
use crate::TeeError;

verus! {

/// Additional data included in an attestation report.
#[derive(Debug, Clone)]
pub struct EnclaveReport {
    pub enclave_id: String,
    pub sealed_adapters: usize,
    pub uptime_secs: i64,
}

/// An attestation quote produced by an enclave: its measurement, the
/// challenger's nonce, and a binding signature over both.
#[derive(Debug, Clone)]
pub struct AttestationQuote {
    pub measurement: EnclaveMeasurement,
    pub nonce: String,
    pub signature: String,
    pub backend: TeeBackend,
    pub security_level: SecurityLevel,
    pub timestamp: i64,
    pub enclave_data: EnclaveReport,
}

/// Verifier-side policy for accepting or rejecting quotes.
#[derive(Debug, Clone)]
pub struct AttestationPolicy {
    /// Trusted code hashes; empty accepts any.
    pub trusted_enclaves: Vec<String>,
    /// Trusted signer hashes; empty accepts any.
    pub trusted_signers: Vec<String>,
    /// Minimum security version number.
    pub min_svn: u16,
    /// Whether software-simulated enclaves are acceptable.
    pub allow_simulated: bool,
    /// Maximum age of a quote, in seconds.
    pub max_quote_age_secs: i64,
    /// Minimum required security level.
    pub min_security_level: SecurityLevel,
}

impl Default for AttestationPolicy {
    /// The permissive development policy: accept anything fresh.
    fn default() -> (r: AttestationPolicy)
        ensures
            r.trusted_enclaves@.len() == 0,
            r.trusted_signers@.len() == 0,
            r.min_svn == 0,
            r.allow_simulated,
            r.max_quote_age_secs == 3600,
            r.min_security_level is Software,
    {
        AttestationPolicy {
            trusted_enclaves: Vec::new(),
            trusted_signers: Vec::new(),
            min_svn: 0,
            allow_simulated: true,
            max_quote_age_secs: 3600,
            min_security_level: SecurityLevel::Software,
        }
    }
}

impl AttestationPolicy {
    /// Strict policy: hardware only, a known signer, a short freshness
    /// window.
    pub fn strict(trusted_signers: Vec<String>) -> (r: AttestationPolicy)
        ensures
            r.trusted_enclaves@.len() == 0,
            r.trusted_signers@ == trusted_signers@,
            r.min_svn == 1,
            !r.allow_simulated,
            r.max_quote_age_secs == 300,
            r.min_security_level is Hardware,
    {
        AttestationPolicy {
            trusted_enclaves: Vec::new(),
            trusted_signers,
            min_svn: 1,
            allow_simulated: false,
            max_quote_age_secs: 300,
            min_security_level: SecurityLevel::Hardware,
        }
    }
}

/// Result of verifying an attestation quote.
#[derive(Debug, Clone)]
pub enum AttestationVerdict {
    /// Quote is valid and the enclave is trusted.
    Trusted { enclave_id: String, security_level: SecurityLevel },
    /// Quote is valid but the enclave fails the policy.
    Untrusted { reason: String },
    /// Quote is corrupted or its signature does not bind.
    Invalid { reason: String },
    /// Quote is older than the policy allows.
    Expired,
}

impl AttestationVerdict {
    /// Whether the verdict accepts the enclave.
    pub fn is_trusted(&self) -> (r: bool)
        ensures
            r == (self is Trusted),
    {
        matches!(self, AttestationVerdict::Trusted { .. })
    }
}

/// Which check of the verification chain decides, in its fixed order.
#[derive(Debug, Clone, Copy, PartialEq, Eq, Structural)]
pub enum VerdictCase {
    Trusted,
    Expired,
    BadSignature,
    SimulatedRejected,
    LevelRejected,
    SvnRejected,
    EnclaveRejected,
    SignerRejected,
}

/// The bytes a quote signature binds: measurement identity, nonce and report
/// fields under a domain tag.
pub open spec fn quote_sig_input(
    m: EnclaveMeasurement,
    nonce: Seq<char>,
    enclave_id: Seq<char>,
    sealed_adapters: u64,
) -> Seq<u8> {
    encode_utf8(m.mrenclave@) + encode_utf8(m.mrsigner@) + spec_u16_to_le_bytes(m.isv_svn)
        + encode_utf8(nonce) + encode_utf8(enclave_id) + spec_u64_to_le_bytes(sealed_adapters)
        + encode_utf8("dlrs-attestation-quote-v1"@)
}

/// A quote signature: the hexadecimal digest of the bound fields.
pub open spec fn quote_signature(
    m: EnclaveMeasurement,
    nonce: Seq<char>,
    enclave_id: Seq<char>,
    sealed_adapters: u64,
) -> Seq<char> {
    hex_of(digest32(quote_sig_input(m, nonce, enclave_id, sealed_adapters)))
}

/// The signature a quote's own fields imply.
pub open spec fn spec_quote_sig(q: &AttestationQuote) -> Seq<char> {
    quote_signature(
        q.measurement,
        q.nonce@,
        q.enclave_data.enclave_id@,
        q.enclave_data.sealed_adapters as u64,
    )
}

/// Whether a list of strings holds the given character sequence.
pub open spec fn seq_contains_str(list: Seq<String>, x: Seq<char>) -> bool {
    exists|i: int| 0 <= i < list.len() && (#[trigger] list[i])@ == x
}

/// The verdict of the ordered verification chain at clock reading `now`:
/// freshness, signature, the simulation rule, the level floor, the SVN
/// floor, then the two allow-lists.
pub open spec fn spec_verify_quote(
    q: &AttestationQuote,
    p: &AttestationPolicy,
    now: int,
) -> VerdictCase {
    if now - q.timestamp > p.max_quote_age_secs {
        VerdictCase::Expired
    } else if q.signature@ != spec_quote_sig(q) {
        VerdictCase::BadSignature
    } else if !p.allow_simulated && q.security_level is Software {
        VerdictCase::SimulatedRejected
    } else if p.min_security_level is Hardware && !(q.security_level is Hardware) {
        VerdictCase::LevelRejected
    } else if q.measurement.isv_svn < p.min_svn {
        VerdictCase::SvnRejected
    } else if p.trusted_enclaves@.len() > 0 && !seq_contains_str(
        p.trusted_enclaves@,
        q.measurement.mrenclave@,
    ) {
        VerdictCase::EnclaveRejected
    } else if p.trusted_signers@.len() > 0 && !seq_contains_str(
        p.trusted_signers@,
        q.measurement.mrsigner@,
    ) {
        VerdictCase::SignerRejected
    } else {
        VerdictCase::Trusted
    }
}

/// How an `AttestationVerdict` value realizes the decided case: each case
/// maps to one variant, with the Trusted fields taken from the quote and
/// each rejection carrying its fixed reason.
pub open spec fn verdict_matches(
    r: &AttestationVerdict,
    q: &AttestationQuote,
    p: &AttestationPolicy,
    now: int,
) -> bool {
    let c = spec_verify_quote(q, p, now);
    &&& (r is Trusted <==> c is Trusted)
    &&& (r is Expired <==> c is Expired)
    &&& (r is Invalid <==> c is BadSignature)
    &&& (r matches AttestationVerdict::Trusted { enclave_id, security_level } ==> enclave_id@
        == q.enclave_data.enclave_id@ && security_level == q.security_level)
    &&& (r matches AttestationVerdict::Invalid { reason } ==> reason@ == "Quote signature mismatch"@)
    &&& (c is SimulatedRejected ==> (r matches AttestationVerdict::Untrusted { reason } && reason@
        == "Software-simulated enclave not allowed by policy"@))
    &&& (c is LevelRejected ==> (r matches AttestationVerdict::Untrusted { reason } && reason@
        == "Security level below policy minimum"@))
    &&& (c is SvnRejected ==> (r matches AttestationVerdict::Untrusted { reason } && reason@
        == "SVN below policy minimum"@))
    &&& (c is EnclaveRejected ==> (r matches AttestationVerdict::Untrusted { reason } && reason@
        == "MRENCLAVE not in trusted list"@))
    &&& (c is SignerRejected ==> (r matches AttestationVerdict::Untrusted { reason } && reason@
        == "MRSIGNER not in trusted list"@))
    &&& (r is Untrusted ==> (c is SimulatedRejected || c is LevelRejected || c is SvnRejected
        || c is EnclaveRejected || c is SignerRejected))
}

/// Whether a list holds a string.
fn list_contains(list: &Vec<String>, x: &String) -> (r: bool)
    ensures
        r == seq_contains_str(list@, x@),
{
    let mut i: usize = 0;
    while i < list.len()
        invariant
            i <= list@.len(),
            forall|j: int| 0 <= j < i ==> (#[trigger] list@[j])@ != x@,
        decreases list@.len() - i,
    {
        if list[i] == *x {
            return true;
        }
        i = i + 1;
    }
    false
}

/// Compute the binding signature over measurement, nonce and report fields.
fn compute_signature(
    m: &EnclaveMeasurement,
    nonce: &str,
    enclave_id: &str,
    sealed_adapters: u64,
) -> (r: String)
    ensures
        r@ == quote_signature(*m, nonce@, enclave_id@, sealed_adapters),
{
    let mut input: Vec<u8> = Vec::new();
    push_str_bytes(&mut input, m.mrenclave.as_str());
    push_str_bytes(&mut input, m.mrsigner.as_str());
    let svn_bytes = u16_to_le_bytes(m.isv_svn);
    push_all(&mut input, svn_bytes.as_slice());
    push_str_bytes(&mut input, nonce);
    push_str_bytes(&mut input, enclave_id);
    let count_bytes = u64_to_le_bytes(sealed_adapters);
    push_all(&mut input, count_bytes.as_slice());
    push_str_bytes(&mut input, "dlrs-attestation-quote-v1");
    proof {
        assert(input@ =~= quote_sig_input(*m, nonce@, enclave_id@, sealed_adapters));
    }
    sha256_hex(input.as_slice())
}

/// An i64 clamp for a difference computed without overflow.
pub open spec fn clamp_i64(x: int) -> i64 {
    if x > i64::MAX {
        i64::MAX
    } else if x < i64::MIN {
        i64::MIN
    } else {
        x as i64
    }
}

/// Generate a quote at a given clock reading: a pure function of the
/// enclave's public state, the nonce and the clock.
pub fn generate_quote_at(enclave: &TeeEnclave, nonce: &str, now: i64) -> (r: AttestationQuote)
    requires
        enclave.wf(),
    ensures
        r.measurement == enclave.meas_view(),
        r.nonce@ == nonce@,
        r.backend == enclave.backend_view(),
        r.security_level == enclave.sec_level(),
        r.timestamp == now,
        r.enclave_data.enclave_id@ == enclave.id_view(),
        r.enclave_data.sealed_adapters == enclave.store().dom().len() / 3,
        r.enclave_data.uptime_secs == clamp_i64(now - enclave.created_ts()),
        r.signature@ == quote_signature(
            enclave.meas_view(),
            nonce@,
            enclave.id_view(),
            (enclave.store().dom().len() / 3) as u64,
        ),
{
    let status = enclave.status();
    let sealed_adapters = status.sealed_items / 3;
    let d: i128 = (now as i128) - (status.created_at as i128);
    let uptime_secs: i64 = if d > i64::MAX as i128 {
        i64::MAX
    } else if d < i64::MIN as i128 {
        i64::MIN
    } else {
        d as i64
    };
    let m = enclave.get_measurement();
    let measurement = EnclaveMeasurement {
        mrenclave: m.mrenclave.clone(),
        mrsigner: m.mrsigner.clone(),
        product_id: m.product_id,
        isv_svn: m.isv_svn,
        attributes: m.attributes,
    };
    let signature = compute_signature(
        enclave.get_measurement(),
        nonce,
        status.enclave_id.as_str(),
        sealed_adapters as u64,
    );
    AttestationQuote {
        measurement,
        nonce: String::from_str(nonce),
        signature,
        backend: enclave.backend(),
        security_level: enclave.security_level(),
        timestamp: now,
        enclave_data: EnclaveReport {
            enclave_id: status.enclave_id,
            sealed_adapters,
            uptime_secs,
        },
    }
}

/// Generate a quote from an enclave and a challenger's nonce, read off the
/// wall clock. Everything but the timestamp and uptime is a function of the
/// enclave's state and the nonce alone.
pub fn generate_quote(enclave: &TeeEnclave, nonce: &str) -> (r: AttestationQuote)
    requires
        enclave.wf(),
    ensures
        r.measurement == enclave.meas_view(),
        r.nonce@ == nonce@,
        r.backend == enclave.backend_view(),
        r.security_level == enclave.sec_level(),
        r.enclave_data.enclave_id@ == enclave.id_view(),
        r.enclave_data.sealed_adapters == enclave.store().dom().len() / 3,
        r.signature@ == quote_signature(
            enclave.meas_view(),
            nonce@,
            enclave.id_view(),
            (enclave.store().dom().len() / 3) as u64,
        ),
        -10_000_000_000_000 <= r.timestamp <= 10_000_000_000_000,
{
    let now = now_ts();
    generate_quote_at(enclave, nonce, now)
}

/// Verify a quote against a policy at a given clock reading. The verdict is
/// exactly the one [`spec_verify_quote`] decides.
pub fn verify_quote_at(quote: &AttestationQuote, policy: &AttestationPolicy, now: i64) -> (r:
    AttestationVerdict)
    ensures
        verdict_matches(&r, quote, policy, now as int),
{
    let over_age = (now as i128) - (quote.timestamp as i128) > (policy.max_quote_age_secs as i128);
    if over_age {
        return AttestationVerdict::Expired;
    }
    let expected = compute_signature(
        &quote.measurement,
        quote.nonce.as_str(),
        quote.enclave_data.enclave_id.as_str(),
        quote.enclave_data.sealed_adapters as u64,
    );
    if quote.signature != expected {
        return AttestationVerdict::Invalid {
            reason: String::from_str("Quote signature mismatch"),
        };
    }
    if !policy.allow_simulated && matches!(quote.security_level, SecurityLevel::Software) {
        return AttestationVerdict::Untrusted {
            reason: String::from_str("Software-simulated enclave not allowed by policy"),
        };
    }
    let level_ok = match policy.min_security_level {
        SecurityLevel::Hardware => matches!(quote.security_level, SecurityLevel::Hardware),
        SecurityLevel::Software => true,
        SecurityLevel::Degraded => true,
    };
    if !level_ok {
        return AttestationVerdict::Untrusted {
            reason: String::from_str("Security level below policy minimum"),
        };
    }
    if quote.measurement.isv_svn < policy.min_svn {
        return AttestationVerdict::Untrusted {
            reason: String::from_str("SVN below policy minimum"),
        };
    }
    if policy.trusted_enclaves.len() > 0 && !list_contains(
        &policy.trusted_enclaves,
        &quote.measurement.mrenclave,
    ) {
        return AttestationVerdict::Untrusted {
            reason: String::from_str("MRENCLAVE not in trusted list"),
        };
    }
    if policy.trusted_signers.len() > 0 && !list_contains(
        &policy.trusted_signers,
        &quote.measurement.mrsigner,
    ) {
        return AttestationVerdict::Untrusted {
            reason: String::from_str("MRSIGNER not in trusted list"),
        };
    }
    AttestationVerdict::Trusted {
        enclave_id: quote.enclave_data.enclave_id.clone(),
        security_level: quote.security_level,
    }
}

/// Verify a quote against a policy, reading the wall clock for the
/// freshness check.
pub fn verify_quote(quote: &AttestationQuote, policy: &AttestationPolicy) -> (r: AttestationVerdict)
    ensures
        exists|now: int|
            -10_000_000_000_000 <= now <= 10_000_000_000_000 && verdict_matches(
                &r,
                quote,
                policy,
                now,
            ),
{
    let now = now_ts();
    let r = verify_quote_at(quote, policy, now);
    proof {
        assert(-10_000_000_000_000 <= now as int <= 10_000_000_000_000 && verdict_matches(
            &r,
            quote,
            policy,
            now as int,
        ));
    }
    r
}

/// Mutual attestation: verify the remote quote and, independent of the
/// verdict, produce the local enclave's own quote bound to the remote
/// quote's nonce. The caller decides whether to proceed on a non-Trusted
/// verdict.
pub fn mutual_attestation(
    local: &TeeEnclave,
    remote_quote: &AttestationQuote,
    policy: &AttestationPolicy,
) -> (r: Result<(AttestationQuote, AttestationVerdict), TeeError>)
    requires
        local.wf(),
    ensures
        r matches Ok(t) && ({
            &&& t.0.measurement == local.meas_view()
            &&& t.0.nonce@ == remote_quote.nonce@
            &&& t.0.signature@ == quote_signature(
                local.meas_view(),
                remote_quote.nonce@,
                local.id_view(),
                (local.store().dom().len() / 3) as u64,
            )
            &&& exists|now: int|
                -10_000_000_000_000 <= now <= 10_000_000_000_000 && verdict_matches(
                    &t.1,
                    remote_quote,
                    policy,
                    now,
                )
        }),
{
    let verdict = verify_quote(remote_quote, policy);
    let our_quote = generate_quote(local, quote_nonce_str(remote_quote));
    let result = (our_quote, verdict);
    proof {
        let now = choose|now: int|
            -10_000_000_000_000 <= now <= 10_000_000_000_000 && verdict_matches(
                &result.1,
                remote_quote,
                policy,
                now,
            );
        assert(verdict_matches(&result.1, remote_quote, policy, now));
    }
    Ok(result)
}

/// The nonce carried by a quote, as a borrowed string.
fn quote_nonce_str(q: &AttestationQuote) -> (r: &str)
    ensures
        r@ == q.nonce@,
{
    q.nonce.as_str()
}

/// Quotes are deterministic: two quotes generated from the same enclave
/// state and the same nonce carry the same signature, whenever the clock
/// was read.
pub proof fn lemma_quote_deterministic(
    q1: &AttestationQuote,
    q2: &AttestationQuote,
    e: &TeeEnclave,
    nonce: Seq<char>,
)
    requires
        q1.signature@ == quote_signature(
            e.meas_view(),
            nonce,
            e.id_view(),
            (e.store().dom().len() / 3) as u64,
        ),
        q2.signature@ == quote_signature(
            e.meas_view(),
            nonce,
            e.id_view(),
            (e.store().dom().len() / 3) as u64,
        ),
    ensures
        q1.signature@ == q2.signature@,
{
}

/// Policy conjunction on the security version number: raising the policy's
/// SVN floor above a quote's SVN turns an otherwise-Trusted verdict into
/// the SVN rejection, with every other check unchanged.
pub proof fn lemma_min_svn_flips_verdict(
    q: &AttestationQuote,
    p1: &AttestationPolicy,
    p2: &AttestationPolicy,
    now: int,
)
    requires
        spec_verify_quote(q, p1, now) is Trusted,
        p2.trusted_enclaves@ == p1.trusted_enclaves@,
        p2.trusted_signers@ == p1.trusted_signers@,
        p2.allow_simulated == p1.allow_simulated,
        p2.max_quote_age_secs == p1.max_quote_age_secs,
        p2.min_security_level == p1.min_security_level,
        q.measurement.isv_svn < p2.min_svn,
    ensures
        spec_verify_quote(q, p2, now) == VerdictCase::SvnRejected,
{
}

/// A policy that disallows simulated enclaves never trusts a quote at the
/// Software security level, whatever the clock says.
pub proof fn lemma_simulated_never_trusted(
    q: &AttestationQuote,
    p: &AttestationPolicy,
    now: int,
)
    requires
        !p.allow_simulated,
        q.security_level is Software,
    ensures
        !(spec_verify_quote(q, p, now) is Trusted),
{
}

} // verus!
