//! The enclave: an isolated execution and storage context owning a derived
//! sealing key and a sealed key/value store. Sealing encrypts with a
//! hash-chained keystream under a fresh random nonce and authenticates with
//! a hash MAC; unsealing is fail-closed, returning nothing unless the MAC
//! verifies over the recovered plaintext.

use vstd::prelude::*;
use vstd::utf8::encode_utf8;
use vstd::string::StringExecFns;
use crate::bytesutil::{xor_seq, xor_bytes, bytes_eq, push_all, push_str_bytes};
use crate::bytesutil::lemma_xor_involution;
use crate::hashing::{sha256d, digest32, sha256_hex, hex_of};
use crate::keystream::{keystream, generate_keystream};
use crate::platform::{now_ts, random_bytes32, uuid_string, device_exists};
use crate::storemap::StoreMap;
use crate::TeeError;

verus! {

/// The trusted-execution backends an enclave can ask for.
#[derive(Debug, Clone, Copy, PartialEq, Eq, Structural)]
pub enum TeeBackend {
    IntelSgx,
    ArmTrustZone,
    Simulated,
}

impl TeeBackend {
    /// Human-readable backend name.
    pub fn name(&self) -> (r: &str)
        ensures
            self is IntelSgx ==> r@ == "Intel SGX"@,
            self is ArmTrustZone ==> r@ == "ARM TrustZone"@,
            self is Simulated ==> r@ == "Simulated (software)"@,
    {
        match self {
            TeeBackend::IntelSgx => "Intel SGX",
            TeeBackend::ArmTrustZone => "ARM TrustZone",
            TeeBackend::Simulated => "Simulated (software)",
        }
    }

    /// Whether this backend is hardware-backed rather than simulated.
    pub fn is_hardware(&self) -> (r: bool)
        ensures
            r == !(self is Simulated),
    {
        !matches!(self, TeeBackend::Simulated)
    }
}

/// How strongly an enclave instance is protected, resolved at construction.
#[derive(Debug, Clone, Copy, PartialEq, Eq, Structural)]
pub enum SecurityLevel {
    Hardware,
    Software,
    Degraded,
}

/// The security level a backend resolves to given whether its hardware was
/// found: any unavailable hardware backend downgrades to Software.
pub open spec fn resolved_level(backend: TeeBackend, available: bool) -> SecurityLevel {
    match backend {
        TeeBackend::Simulated => SecurityLevel::Software,
        _ => if available {
            SecurityLevel::Hardware
        } else {
            SecurityLevel::Software
        },
    }
}

/// An identity hash: SHA-256 of the seed and a domain-separation tag, in
/// hexadecimal.
pub open spec fn measurement_hash(seed: Seq<char>, tag: Seq<char>) -> Seq<char> {
    hex_of(digest32(encode_utf8(seed) + encode_utf8(tag)))
}

/// Immutable identity record of an enclave: code and signer hashes, product
/// id, security version number, and attribute flags.
#[derive(Debug, Clone)]
pub struct EnclaveMeasurement {
    pub mrenclave: String,
    pub mrsigner: String,
    pub product_id: u16,
    pub isv_svn: u16,
    pub attributes: u64,
}

impl EnclaveMeasurement {
    /// Compute a measurement from a code-identity seed and a signer key.
    pub fn compute(code_hash: &str, signer_key: &str, product_id: u16, svn: u16) -> (r:
        EnclaveMeasurement)
        ensures
            r.mrenclave@ == measurement_hash(code_hash@, "mrenclave-v1"@),
            r.mrsigner@ == measurement_hash(signer_key@, "mrsigner-v1"@),
            r.product_id == product_id,
            r.isv_svn == svn,
            r.attributes == 7,
    {
        let mut enc_input: Vec<u8> = Vec::new();
        push_str_bytes(&mut enc_input, code_hash);
        push_str_bytes(&mut enc_input, "mrenclave-v1");
        let mrenclave = sha256_hex(enc_input.as_slice());
        let mut sig_input: Vec<u8> = Vec::new();
        push_str_bytes(&mut sig_input, signer_key);
        push_str_bytes(&mut sig_input, "mrsigner-v1");
        let mrsigner = sha256_hex(sig_input.as_slice());
        EnclaveMeasurement { mrenclave, mrsigner, product_id, isv_svn: svn, attributes: 7 }
    }

    /// Whether this measurement matches an expected one: equal code and
    /// signer hashes, and a security version number at least the expected.
    pub fn matches(&self, expected: &EnclaveMeasurement) -> (r: bool)
        ensures
            r == (self.mrenclave@ == expected.mrenclave@ && self.mrsigner@ == expected.mrsigner@
                && self.isv_svn >= expected.isv_svn),
    {
        self.mrenclave == expected.mrenclave && self.mrsigner == expected.mrsigner && self.isv_svn
            >= expected.isv_svn
    }
}

/// The MAC bound into a sealed blob: a hash of key, nonce, plaintext and a
/// domain tag.
pub open spec fn seal_mac(key: Seq<u8>, nonce: Seq<u8>, plaintext: Seq<u8>) -> Seq<u8> {
    digest32(key + nonce + plaintext + encode_utf8("dlrs-mac-v1"@))
}

/// The keystream a sealing key and nonce derive for a plaintext length.
pub open spec fn seal_keystream(key: Seq<u8>, nonce: Seq<u8>, len: nat) -> Seq<u8> {
    keystream(key + nonce, Seq::empty(), len)
}

/// A sealed blob: nonce, ciphertext, then MAC.
pub open spec fn seal_blob(key: Seq<u8>, nonce: Seq<u8>, plaintext: Seq<u8>) -> Seq<u8> {
    nonce + xor_seq(plaintext, seal_keystream(key, nonce, plaintext.len())) + seal_mac(
        key,
        nonce,
        plaintext,
    )
}

/// The nonce carried by a sealed blob.
pub open spec fn blob_nonce(blob: Seq<u8>) -> Seq<u8> {
    blob.subrange(0, 16)
}

/// The ciphertext carried by a sealed blob.
pub open spec fn blob_ct(blob: Seq<u8>) -> Seq<u8> {
    blob.subrange(16, blob.len() - 32)
}

/// The MAC carried by a sealed blob.
pub open spec fn blob_mac(blob: Seq<u8>) -> Seq<u8> {
    blob.subrange(blob.len() - 32, blob.len() as int)
}

/// What unsealing a blob recovers before authentication.
pub open spec fn unseal_plain(key: Seq<u8>, blob: Seq<u8>) -> Seq<u8> {
    xor_seq(blob_ct(blob), seal_keystream(key, blob_nonce(blob), blob_ct(blob).len()))
}

/// Whether a blob authenticates under a key: long enough to carry nonce and
/// MAC, with the MAC matching the recovered plaintext.
pub open spec fn unseal_ok(key: Seq<u8>, blob: Seq<u8>) -> bool {
    blob.len() >= 48 && blob_mac(blob) == seal_mac(key, blob_nonce(blob), unseal_plain(key, blob))
}

/// Sealing then unsealing under the same key recovers exactly the plaintext:
/// a freshly sealed blob authenticates, and what it opens to is the input.
pub proof fn lemma_seal_round_trip(key: Seq<u8>, nonce: Seq<u8>, plaintext: Seq<u8>)
    requires
        nonce.len() == 16,
    ensures
        unseal_ok(key, seal_blob(key, nonce, plaintext)),
        unseal_plain(key, seal_blob(key, nonce, plaintext)) == plaintext,
{
    let blob = seal_blob(key, nonce, plaintext);
    let ks = seal_keystream(key, nonce, plaintext.len());
    assert(ks.len() == plaintext.len());
    assert(blob.len() == 48 + plaintext.len());
    assert(blob_nonce(blob) =~= nonce);
    assert(blob_ct(blob) =~= xor_seq(plaintext, ks));
    assert(blob_mac(blob) =~= seal_mac(key, nonce, plaintext));
    lemma_xor_involution(plaintext, ks);
    assert(unseal_plain(key, blob) == plaintext);
}

/// Seal a plaintext under a key with the given 16-byte nonce.
fn seal_bytes_with_nonce(key: &[u8], nonce: &[u8], plaintext: &[u8]) -> (r: Vec<u8>)
    requires
        nonce@.len() == 16,
    ensures
        r@ == seal_blob(key@, nonce@, plaintext@),
        r@.len() == 48 + plaintext@.len(),
{
    let mut prefix: Vec<u8> = Vec::new();
    push_all(&mut prefix, key);
    push_all(&mut prefix, nonce);
    let empty_suffix: Vec<u8> = Vec::new();
    let ks = generate_keystream(prefix.as_slice(), empty_suffix.as_slice(), plaintext.len());
    let ct = xor_bytes(plaintext, ks.as_slice());
    let mac = compute_seal_mac(key, nonce, plaintext);
    let mut blob: Vec<u8> = Vec::new();
    push_all(&mut blob, nonce);
    push_all(&mut blob, ct.as_slice());
    push_all(&mut blob, mac.as_slice());
    proof {
        assert(blob@ =~= seal_blob(key@, nonce@, plaintext@));
    }
    blob
}

/// Compute the sealing MAC over key, nonce and plaintext.
fn compute_seal_mac(key: &[u8], nonce: &[u8], plaintext: &[u8]) -> (r: Vec<u8>)
    ensures
        r@ == seal_mac(key@, nonce@, plaintext@),
        r@.len() == 32,
{
    let mut input: Vec<u8> = Vec::new();
    push_all(&mut input, key);
    push_all(&mut input, nonce);
    push_all(&mut input, plaintext);
    push_str_bytes(&mut input, "dlrs-mac-v1");
    proof {
        assert(input@ =~= key@ + nonce@ + plaintext@ + encode_utf8("dlrs-mac-v1"@));
    }
    sha256d(input.as_slice())
}

/// Open a sealed blob under a key, failing closed: no plaintext leaves this
/// function unless the MAC verifies over it.
fn open_bytes(key: &[u8], blob: &[u8]) -> (r: Result<Vec<u8>, TeeError>)
    ensures
        blob@.len() < 48 ==> (r matches Err(e) && e is SealingError),
        blob@.len() >= 48 && !unseal_ok(key@, blob@) ==> (r matches Err(e)
            && e is IntegrityError),
        unseal_ok(key@, blob@) ==> (r matches Ok(p) && p@ == unseal_plain(key@, blob@)),
{
    if blob.len() < 48 {
        return Err(TeeError::SealingError(String::from_str("Data too short")));
    }
    let nonce = vstd::slice::slice_subrange(blob, 0, 16);
    let mac = vstd::slice::slice_subrange(blob, blob.len() - 32, blob.len());
    let ct = vstd::slice::slice_subrange(blob, 16, blob.len() - 32);
    let mut prefix: Vec<u8> = Vec::new();
    push_all(&mut prefix, key);
    push_all(&mut prefix, nonce);
    let empty_suffix: Vec<u8> = Vec::new();
    let ks = generate_keystream(prefix.as_slice(), empty_suffix.as_slice(), ct.len());
    let plaintext = xor_bytes(ct, ks.as_slice());
    let expected_mac = compute_seal_mac(key, nonce, plaintext.as_slice());
    if bytes_eq(mac, expected_mac.as_slice()) {
        proof {
            assert(plaintext@ == unseal_plain(key@, blob@));
        }
        Ok(plaintext)
    } else {
        Err(TeeError::IntegrityError(String::from_str("MAC verification failed")))
    }
}

/// Saturating subtraction of a byte count from a 64-bit total.
pub open spec fn sat_sub64(a: u64, b: nat) -> u64 {
    if a >= b {
        (a - b) as u64
    } else {
        0
    }
}

/// Saturating addition of a byte count to a 64-bit total.
pub open spec fn sat_add64(a: u64, b: nat) -> u64 {
    if a + b > u64::MAX {
        u64::MAX
    } else {
        (a + b) as u64
    }
}

/// The sealed-store key for an adapter's left factor.
pub open spec fn ukey(id: Seq<char>) -> Seq<char> {
    id + "/U"@
}

/// The sealed-store key for an adapter's scale factor.
pub open spec fn skey(id: Seq<char>) -> Seq<char> {
    id + "/S"@
}

/// The sealed-store key for an adapter's right factor.
pub open spec fn vkey(id: Seq<char>) -> Seq<char> {
    id + "/V"@
}

/// A key is present in a sealed store and its blob authenticates.
pub open spec fn factor_ok(store: Map<Seq<char>, Seq<u8>>, key: Seq<u8>, k: Seq<char>) -> bool {
    store.dom().contains(k) && unseal_ok(key, store[k])
}

/// All three factor blobs of an adapter are present and authenticate.
pub open spec fn factors_ok(store: Map<Seq<char>, Seq<u8>>, key: Seq<u8>, id: Seq<char>) -> bool {
    factor_ok(store, key, ukey(id)) && factor_ok(store, key, skey(id)) && factor_ok(
        store,
        key,
        vkey(id),
    )
}

/// The plaintext a stored blob opens to.
pub open spec fn factor_plain(store: Map<Seq<char>, Seq<u8>>, key: Seq<u8>, k: Seq<char>) -> Seq<
    u8,
> {
    unseal_plain(key, store[k])
}

/// The bytes hashed into an in-enclave proof.
pub open spec fn proof_input(
    domain: Seq<char>,
    challenge: Seq<u8>,
    u: Seq<u8>,
    s: Seq<u8>,
    v: Seq<u8>,
) -> Seq<u8> {
    encode_utf8(domain) + challenge + u + s + v
}

/// The sum of the squares of a byte sequence.
pub open spec fn sum_squares(s: Seq<u8>) -> nat
    decreases s.len(),
{
    if s.len() == 0 {
        0
    } else {
        sum_squares(s.drop_last()) + (s.last() as nat) * (s.last() as nat)
    }
}

/// `r` is the integer square root of `n`.
pub open spec fn is_isqrt(n: nat, r: nat) -> bool {
    r * r <= n && n < (r + 1) * (r + 1)
}

/// The sealing key an enclave derives from its identity.
pub open spec fn sealing_key_of(
    mrenclave: Seq<char>,
    mrsigner: Seq<char>,
    enclave_id: Seq<char>,
) -> Seq<u8> {
    digest32(
        encode_utf8(mrenclave) + encode_utf8(mrsigner) + encode_utf8(enclave_id) + encode_utf8(
            "dlrs-sealing-key-v1"@,
        ),
    )
}

/// Sum the squares of the bytes of a slice.
fn sum_of_squares(data: &[u8]) -> (r: u128)
    ensures
        r == sum_squares(data@),
{
    let mut acc: u128 = 0;
    let mut i: usize = 0;
    while i < data.len()
        invariant
            i <= data@.len(),
            acc == sum_squares(data@.take(i as int)),
            acc <= (i as int) * 65025,
        decreases data@.len() - i,
    {
        let b = data[i] as u128;
        proof {
            assert(data@.take(i as int + 1).drop_last() =~= data@.take(i as int));
            assert(data@.take(i as int + 1).last() == data@[i as int]);
            assert(b * b <= 65025) by (nonlinear_arith)
                requires
                    b <= 255,
            ;
            assert(acc + b * b <= (i as int + 1) * 65025) by (nonlinear_arith)
                requires
                    acc <= (i as int) * 65025,
                    b * b <= 65025,
            ;
            assert((i as int + 1) * 65025 <= 0x1_0000_0000_0000_0000 * 65025) by (nonlinear_arith)
                requires
                    i as int + 1 <= 0x1_0000_0000_0000_0000,
            ;
        }
        acc = acc + b * b;
        i = i + 1;
    }
    proof {
        assert(data@.take(data@.len() as int) =~= data@);
    }
    acc
}

/// The integer square root, by bisection.
fn isqrt_u128(n: u128) -> (r: u64)
    ensures
        is_isqrt(n as nat, r as nat),
{
    let mut lo: u128 = 0;
    let mut hi: u128 = 0xFFFF_FFFF_FFFF_FFFF;
    proof {
        assert((0xFFFF_FFFF_FFFF_FFFFu128 + 1) * (0xFFFF_FFFF_FFFF_FFFFu128 + 1) > u128::MAX)
            by (nonlinear_arith);
    }
    while lo < hi
        invariant
            lo <= hi <= 0xFFFF_FFFF_FFFF_FFFF,
            (lo as nat) * (lo as nat) <= n as nat,
            (n as nat) < ((hi as nat) + 1) * ((hi as nat) + 1),
        decreases hi - lo,
    {
        let mid = lo + (hi - lo + 1) / 2;
        proof {
            assert(mid * mid < (0xFFFF_FFFF_FFFF_FFFFu128 + 1) * (0xFFFF_FFFF_FFFF_FFFFu128 + 1))
                by (nonlinear_arith)
                requires
                    mid <= 0xFFFF_FFFF_FFFF_FFFFu128,
            ;
        }
        let sq = mid * mid;
        if sq <= n {
            lo = mid;
        } else {
            hi = mid - 1;
        }
    }
    lo as u64
}

/// Probe for Intel SGX device nodes.
fn probe_sgx() -> bool {
    device_exists("/dev/sgx_enclave") || device_exists("/dev/isgx")
}

/// Probe for ARM TrustZone device nodes.
fn probe_trustzone() -> bool {
    device_exists("/dev/tee0") || device_exists("/dev/opteearmtz00")
}

/// Read-only snapshot of a running enclave.
#[derive(Debug, Clone)]
pub struct EnclaveStatus {
    pub enclave_id: String,
    pub backend: TeeBackend,
    pub security_level: SecurityLevel,
    pub created_at: i64,
    pub sealed_items: usize,
    pub memory_usage_bytes: u64,
    pub is_healthy: bool,
}

/// A capability score as an exact fraction `num / den` with `den = num + 1`,
/// so it always lies in `[0, 1)` and is positive exactly when the scale
/// factor has a non-zero byte.
#[derive(Debug, Clone, Copy, PartialEq, Eq, Structural)]
pub struct CapabilityScore {
    pub num: u64,
    pub den: u64,
}

/// Result of an enclave-internal proof computation; the factor arrays
/// themselves never leave the enclave through this value.
#[derive(Debug, Clone)]
pub struct EnclaveProofResult {
    pub proof_hash: String,
    pub capability_score: CapabilityScore,
    pub enclave_id: String,
    pub security_level: SecurityLevel,
}

/// Everything of an enclave but its sealed store and byte counter: identity,
/// keys and level are never changed by sealing operations.
pub open spec fn same_identity(a: &TeeEnclave, b: &TeeEnclave) -> bool {
    &&& a.id_view() == b.id_view()
    &&& a.backend_view() == b.backend_view()
    &&& a.meas_view() == b.meas_view()
    &&& a.key() == b.key()
    &&& a.created_ts() == b.created_ts()
    &&& a.sec_level() == b.sec_level()
}

/// A trusted-execution enclave instance: a sealing key derived from its
/// measurement, and a sealed key/value store.
pub struct TeeEnclave {
    pub id: String,
    pub backend: TeeBackend,
    pub measurement: EnclaveMeasurement,
    sealed_store: StoreMap<Vec<u8>>,
    sealing_key: Vec<u8>,
    created_at: i64,
    sealed_bytes: u64,
    security_level: SecurityLevel,
}

impl TeeEnclave {
    /// The identifier, as a character sequence.
    pub closed spec fn id_view(&self) -> Seq<char> {
        self.id@
    }

    /// The backend the enclave was asked for.
    pub closed spec fn backend_view(&self) -> TeeBackend {
        self.backend
    }

    /// The measurement record.
    pub closed spec fn meas_view(&self) -> EnclaveMeasurement {
        self.measurement
    }

    /// The sealing key; never returned by any public operation.
    pub closed spec fn key(&self) -> Seq<u8> {
        self.sealing_key@
    }

    /// The sealed store, as a map from key to sealed blob.
    pub closed spec fn store(&self) -> Map<Seq<char>, Seq<u8>> {
        Map::new(
            |k: Seq<char>| self.sealed_store@.dom().contains(k),
            |k: Seq<char>| self.sealed_store@[k]@,
        )
    }

    /// When the enclave was constructed, as a Unix timestamp.
    pub closed spec fn created_ts(&self) -> i64 {
        self.created_at
    }

    /// The running total of sealed blob bytes.
    pub closed spec fn mem_bytes(&self) -> u64 {
        self.sealed_bytes
    }

    /// The security level resolved at construction.
    pub closed spec fn sec_level(&self) -> SecurityLevel {
        self.security_level
    }

    /// Internal consistency: a 32-byte sealing key over a well-formed store.
    pub closed spec fn wf(&self) -> bool {
        self.sealed_store.wf() && self.sealing_key@.len() == 32
    }

    /// Create and initialize an enclave: resolve the security level by
    /// probing for the requested backend (any unavailable hardware backend
    /// downgrades to Software), compute the measurement, and derive the
    /// sealing key from it.
    pub fn new(backend: TeeBackend) -> (r: Result<TeeEnclave, TeeError>)
        ensures
            r matches Ok(e) && ({
                &&& e.wf()
                &&& e.backend_view() == backend
                &&& e.store() == Map::<Seq<char>, Seq<u8>>::empty()
                &&& e.mem_bytes() == 0
                &&& e.id_view().len() == 36
                &&& e.meas_view().mrenclave@ == measurement_hash(
                    "dlrs-enclave-"@ + e.id_view(),
                    "mrenclave-v1"@,
                )
                &&& e.meas_view().mrsigner@ == measurement_hash(
                    "dlrs-signer-key-v1"@,
                    "mrsigner-v1"@,
                )
                &&& e.meas_view().product_id == 1
                &&& e.meas_view().isv_svn == 1
                &&& e.meas_view().attributes == 7
                &&& e.key() == sealing_key_of(
                    e.meas_view().mrenclave@,
                    e.meas_view().mrsigner@,
                    e.id_view(),
                )
                &&& exists|available: bool| e.sec_level() == resolved_level(backend, available)
                &&& (backend is Simulated ==> e.sec_level() is Software)
                &&& -10_000_000_000_000 <= e.created_ts() <= 10_000_000_000_000
            }),
    {
        let available = match backend {
            TeeBackend::IntelSgx => probe_sgx(),
            TeeBackend::ArmTrustZone => probe_trustzone(),
            TeeBackend::Simulated => false,
        };
        let security_level = match backend {
            TeeBackend::Simulated => SecurityLevel::Software,
            _ => if available {
                SecurityLevel::Hardware
            } else {
                SecurityLevel::Software
            },
        };
        let id = uuid_string();
        let code_seed = String::from_str("dlrs-enclave-").concat(id.as_str());
        let measurement = EnclaveMeasurement::compute(code_seed.as_str(), "dlrs-signer-key-v1", 1, 1);
        let sealing_key = derive_sealing_key(&measurement, id.as_str());
        let created_at = now_ts();
        let enclave = TeeEnclave {
            id,
            backend,
            measurement,
            sealed_store: StoreMap::new(),
            sealing_key,
            created_at,
            sealed_bytes: 0,
            security_level,
        };
        proof {
            assert(enclave.store() =~= Map::<Seq<char>, Seq<u8>>::empty());
            assert(enclave.sec_level() == resolved_level(backend, available));
        }
        Ok(enclave)
    }

    /// Seal data under a key: encrypt with a fresh random nonce, MAC it, and
    /// store the blob, replacing any prior value.
    pub fn seal(&mut self, key: &str, plaintext: &[u8]) -> (r: Result<(), TeeError>)
        requires
            old(self).wf(),
            plaintext@.len() + 48 <= usize::MAX,
        ensures
            final(self).wf(),
            r is Ok,
            same_identity(old(self), final(self)),
            exists|nonce: Seq<u8>| #![auto]
                nonce.len() == 16 && final(self).store() == old(self).store().insert(
                    key@,
                    seal_blob(old(self).key(), nonce, plaintext@),
                ),
            final(self).mem_bytes() == sat_add64(
                sat_sub64(
                    old(self).mem_bytes(),
                    if old(self).store().dom().contains(key@) {
                        old(self).store()[key@].len()
                    } else {
                        0
                    },
                ),
                (plaintext@.len() + 48) as nat,
            ),
    {
        let mut nonce = random_bytes32();
        nonce.truncate(16);
        let blob = seal_bytes_with_nonce(self.sealing_key.as_slice(), nonce.as_slice(), plaintext);
        let k = String::from_str(key);
        let prior: u64 = match self.sealed_store.get(&k) {
            Some(v) => v.len() as u64,
            None => 0,
        };
        let added = blob.len() as u64;
        let ghost nonce_view = nonce@;
        let ghost store0 = self.store();
        let ghost key0 = self.key();
        self.sealed_store.insert(k, blob);
        self.sealed_bytes = sat_add_u64(sat_sub_u64(self.sealed_bytes, prior), added);
        proof {
            assert(self.store() =~= store0.insert(key@, seal_blob(key0, nonce_view, plaintext@)));
        }
        Ok(())
    }

    /// Retrieve sealed data: fails with KeyNotFound if absent, fails closed
    /// on any integrity mismatch, and otherwise returns exactly the
    /// plaintext that was sealed.
    pub fn unseal(&self, key: &str) -> (r: Result<Vec<u8>, TeeError>)
        requires
            self.wf(),
        ensures
            !self.store().dom().contains(key@) ==> (r matches Err(e) && e matches
                TeeError::KeyNotFound(k) && k@ == key@),
            self.store().dom().contains(key@) && self.store()[key@].len() < 48 ==> (r matches Err(e)
                && e is SealingError),
            self.store().dom().contains(key@) && self.store()[key@].len() >= 48 && !unseal_ok(
                self.key(),
                self.store()[key@],
            ) ==> (r matches Err(e) && e is IntegrityError),
            self.store().dom().contains(key@) && unseal_ok(self.key(), self.store()[key@]) ==> (
            r matches Ok(p) && p@ == unseal_plain(self.key(), self.store()[key@])),
    {
        let k = String::from_str(key);
        match self.sealed_store.get(&k) {
            None => Err(TeeError::KeyNotFound(k)),
            Some(blob) => open_bytes(self.sealing_key.as_slice(), blob.as_slice()),
        }
    }

    /// Whether a key is present in the sealed store.
    pub fn contains(&self, key: &str) -> (r: bool)
        requires
            self.wf(),
        ensures
            r == self.store().dom().contains(key@),
    {
        let k = String::from_str(key);
        self.sealed_store.get(&k).is_some()
    }

    /// Remove sealed data; reports whether the key was present.
    pub fn remove(&mut self, key: &str) -> (r: bool)
        requires
            old(self).wf(),
        ensures
            final(self).wf(),
            same_identity(old(self), final(self)),
            r == old(self).store().dom().contains(key@),
            final(self).store() == old(self).store().remove(key@),
            final(self).mem_bytes() == sat_sub64(
                old(self).mem_bytes(),
                if old(self).store().dom().contains(key@) {
                    old(self).store()[key@].len()
                } else {
                    0
                },
            ),
    {
        let k = String::from_str(key);
        let removed: u64 = match self.sealed_store.get(&k) {
            Some(v) => v.len() as u64,
            None => 0,
        };
        let ghost store0 = self.store();
        let present = self.sealed_store.remove(&k);
        self.sealed_bytes = sat_sub_u64(self.sealed_bytes, removed);
        proof {
            assert(self.store() =~= store0.remove(key@));
        }
        present
    }

    /// Every key currently sealed.
    pub fn sealed_keys(&self) -> (r: Vec<String>)
        requires
            self.wf(),
        ensures
            r@.len() == self.store().dom().len(),
            forall|i: int| 0 <= i < r@.len() ==> self.store().dom().contains((#[trigger] r@[i])@),
    {
        proof {
            assert(self.store().dom() =~= self.sealed_store@.dom());
        }
        self.sealed_store.keys()
    }

    /// The enclave measurement, for remote attestation.
    pub fn get_measurement(&self) -> (r: &EnclaveMeasurement)
        ensures
            *r == self.meas_view(),
    {
        &self.measurement
    }

    /// The identifier, as a borrowed string.
    pub fn id_str(&self) -> (r: &str)
        ensures
            r@ == self.id_view(),
    {
        self.id.as_str()
    }

    /// The backend this enclave was constructed for.
    pub fn backend(&self) -> (r: TeeBackend)
        ensures
            r == self.backend_view(),
    {
        self.backend
    }

    /// The security level resolved at construction.
    pub fn security_level(&self) -> (r: SecurityLevel)
        ensures
            r == self.sec_level(),
    {
        self.security_level
    }

    /// Read-only snapshot of the enclave.
    pub fn status(&self) -> (r: EnclaveStatus)
        requires
            self.wf(),
        ensures
            r.enclave_id@ == self.id_view(),
            r.backend == self.backend_view(),
            r.security_level == self.sec_level(),
            r.created_at == self.created_ts(),
            r.sealed_items == self.store().dom().len(),
            r.memory_usage_bytes == self.mem_bytes(),
            r.is_healthy,
    {
        proof {
            assert(self.store().dom() =~= self.sealed_store@.dom());
        }
        EnclaveStatus {
            enclave_id: self.id.clone(),
            backend: self.backend,
            security_level: self.security_level,
            created_at: self.created_at,
            sealed_items: self.sealed_store.len(),
            memory_usage_bytes: self.sealed_bytes,
            is_healthy: true,
        }
    }
}

/// Derive the sealing key from a measurement and the enclave id.
fn derive_sealing_key(measurement: &EnclaveMeasurement, enclave_id: &str) -> (r: Vec<u8>)
    ensures
        r@ == sealing_key_of(measurement.mrenclave@, measurement.mrsigner@, enclave_id@),
        r@.len() == 32,
{
    let mut input: Vec<u8> = Vec::new();
    push_str_bytes(&mut input, measurement.mrenclave.as_str());
    push_str_bytes(&mut input, measurement.mrsigner.as_str());
    push_str_bytes(&mut input, enclave_id);
    push_str_bytes(&mut input, "dlrs-sealing-key-v1");
    proof {
        assert(input@ =~= encode_utf8(measurement.mrenclave@) + encode_utf8(measurement.mrsigner@)
            + encode_utf8(enclave_id@) + encode_utf8("dlrs-sealing-key-v1"@));
    }
    sha256d(input.as_slice())
}

/// Saturating subtraction on byte totals.
fn sat_sub_u64(a: u64, b: u64) -> (r: u64)
    ensures
        r == sat_sub64(a, b as nat),
{
    if a >= b {
        a - b
    } else {
        0
    }
}

/// Saturating addition on byte totals.
fn sat_add_u64(a: u64, b: u64) -> (r: u64)
    ensures
        r == sat_add64(a, b as nat),
{
    if a > u64::MAX - b {
        u64::MAX
    } else {
        a + b
    }
}

/// The sum of byte squares is bounded by the length times the largest
/// square.
proof fn lemma_sum_squares_bound(s: Seq<u8>)
    ensures
        sum_squares(s) <= s.len() * 65025,
    decreases s.len(),
{
    if s.len() == 0 {
    } else {
        lemma_sum_squares_bound(s.drop_last());
        let b = s.last() as nat;
        assert(b * b <= 65025) by (nonlinear_arith)
            requires
                b <= 255,
        ;
        assert((s.len() - 1) * 65025 + 65025 == s.len() * 65025) by (nonlinear_arith);
    }
}

/// Build a namespaced sealed-store key.
fn factor_key(adapter_id: &str, suffix: &str) -> (r: String)
    ensures
        r@ == adapter_id@ + suffix@,
{
    String::from_str(adapter_id).concat(suffix)
}

impl TeeEnclave {
    /// Seal an adapter's three factor arrays under namespaced keys. The
    /// three seals are independent and applied in order; this batch is a
    /// convenience, not a transaction.
    pub fn seal_matrix_factors(
        &mut self,
        adapter_id: &str,
        u_data: &[u8],
        sigma_data: &[u8],
        v_data: &[u8],
    ) -> (r: Result<(), TeeError>)
        requires
            old(self).wf(),
            u_data@.len() + 48 <= usize::MAX,
            sigma_data@.len() + 48 <= usize::MAX,
            v_data@.len() + 48 <= usize::MAX,
        ensures
            final(self).wf(),
            r is Ok,
            same_identity(old(self), final(self)),
            exists|n1: Seq<u8>, n2: Seq<u8>, n3: Seq<u8>| #![auto]
                n1.len() == 16 && n2.len() == 16 && n3.len() == 16 && final(self).store() == old(
                    self,
                ).store().insert(
                    ukey(adapter_id@),
                    seal_blob(old(self).key(), n1, u_data@),
                ).insert(
                    skey(adapter_id@),
                    seal_blob(old(self).key(), n2, sigma_data@),
                ).insert(vkey(adapter_id@), seal_blob(old(self).key(), n3, v_data@)),
    {
        let uk = factor_key(adapter_id, "/U");
        let sk = factor_key(adapter_id, "/S");
        let vk = factor_key(adapter_id, "/V");
        let ghost key0 = self.key();
        let ghost store0 = self.store();
        let _ = self.seal(uk.as_str(), u_data);
        let ghost n1 = choose|n: Seq<u8>|
            n.len() == 16 && self.store() == store0.insert(
                ukey(adapter_id@),
                seal_blob(key0, n, u_data@),
            );
        let ghost store1 = self.store();
        let _ = self.seal(sk.as_str(), sigma_data);
        let ghost n2 = choose|n: Seq<u8>|
            n.len() == 16 && self.store() == store1.insert(
                skey(adapter_id@),
                seal_blob(key0, n, sigma_data@),
            );
        let ghost store2 = self.store();
        let _ = self.seal(vk.as_str(), v_data);
        proof {
            let n3 = choose|n: Seq<u8>|
                n.len() == 16 && self.store() == store2.insert(
                    vkey(adapter_id@),
                    seal_blob(key0, n, v_data@),
                );
            assert(n1.len() == 16 && n2.len() == 16 && n3.len() == 16 && self.store()
                == store0.insert(ukey(adapter_id@), seal_blob(key0, n1, u_data@)).insert(
                skey(adapter_id@),
                seal_blob(key0, n2, sigma_data@),
            ).insert(vkey(adapter_id@), seal_blob(key0, n3, v_data@)));
        }
        Ok(())
    }

    /// Unseal an adapter's three factor arrays. Succeeds exactly when all
    /// three namespaced blobs are present and authenticate.
    pub fn unseal_matrix_factors(&self, adapter_id: &str) -> (r: Result<
        (Vec<u8>, Vec<u8>, Vec<u8>),
        TeeError,
    >)
        requires
            self.wf(),
        ensures
            r is Ok <==> factors_ok(self.store(), self.key(), adapter_id@),
            r matches Ok(t) ==> ({
                &&& t.0@ == factor_plain(self.store(), self.key(), ukey(adapter_id@))
                &&& t.1@ == factor_plain(self.store(), self.key(), skey(adapter_id@))
                &&& t.2@ == factor_plain(self.store(), self.key(), vkey(adapter_id@))
            }),
    {
        let uk = factor_key(adapter_id, "/U");
        let sk = factor_key(adapter_id, "/S");
        let vk = factor_key(adapter_id, "/V");
        let u = match self.unseal(uk.as_str()) {
            Ok(v) => v,
            Err(e) => {
                return Err(e);
            },
        };
        let s = match self.unseal(sk.as_str()) {
            Ok(v) => v,
            Err(e) => {
                return Err(e);
            },
        };
        let v = match self.unseal(vk.as_str()) {
            Ok(v) => v,
            Err(e) => {
                return Err(e);
            },
        };
        Ok((u, s, v))
    }

    /// Compute a proof of possession inside the enclave: a hash over domain,
    /// challenge and all factor bytes, and a capability score derived from
    /// the magnitude of the scale array. The factor arrays never leave.
    pub fn enclave_compute_proof(
        &self,
        adapter_id: &str,
        domain: &str,
        challenge_data: &[u8],
    ) -> (r: Result<EnclaveProofResult, TeeError>)
        requires
            self.wf(),
        ensures
            r is Ok <==> factors_ok(self.store(), self.key(), adapter_id@),
            r matches Ok(p) ==> ({
                let u = factor_plain(self.store(), self.key(), ukey(adapter_id@));
                let s = factor_plain(self.store(), self.key(), skey(adapter_id@));
                let v = factor_plain(self.store(), self.key(), vkey(adapter_id@));
                &&& p.proof_hash@ == hex_of(
                    digest32(proof_input(domain@, challenge_data@, u, s, v)),
                )
                &&& is_isqrt(sum_squares(s), p.capability_score.num as nat)
                &&& p.capability_score.den == p.capability_score.num + 1
                &&& p.enclave_id@ == self.id_view()
                &&& p.security_level == self.sec_level()
            }),
    {
        let (u, s, v) = match self.unseal_matrix_factors(adapter_id) {
            Ok(t) => t,
            Err(e) => {
                return Err(e);
            },
        };
        let mut input: Vec<u8> = Vec::new();
        push_str_bytes(&mut input, domain);
        push_all(&mut input, challenge_data);
        push_all(&mut input, u.as_slice());
        push_all(&mut input, s.as_slice());
        push_all(&mut input, v.as_slice());
        proof {
            assert(input@ =~= proof_input(domain@, challenge_data@, u@, s@, v@));
        }
        let proof_hash = sha256_hex(input.as_slice());
        let sum = sum_of_squares(s.as_slice());
        let norm = isqrt_u128(sum);
        let s_len = s.len();
        proof {
            assert(s@.len() == s_len);
            lemma_sum_squares_bound(s@);
            assert(s@.len() * 65025 < 0x1_0000_0000_0000_0000 * 65025) by (nonlinear_arith)
                requires
                    s@.len() < 0x1_0000_0000_0000_0000,
            ;
            assert((norm as nat) < 0xFFFF_FFFF_FFFF_FFFF) by (nonlinear_arith)
                requires
                    (norm as nat) * (norm as nat) <= sum as nat,
                    (sum as nat) < 0x1_0000_0000_0000_0000 * 65025,
            ;
        }
        let capability_score = CapabilityScore { num: norm, den: norm + 1 };
        Ok(
            EnclaveProofResult {
                proof_hash,
                capability_score,
                enclave_id: self.id.clone(),
                security_level: self.security_level,
            },
        )
    }
}

} // verus!
