//! Durable sealed storage. Each factor array is encrypted with a
//! storage-specific key derived deterministically from the owning id, the
//! array's label and a fixed domain tag — never from a live enclave's
//! volatile sealing key — so records stay decryptable after a restart with a
//! freshly constructed enclave. An integrity hash over all three encoded
//! blobs and the id is checked before any decryption. Persistence of the
//! index document itself is the embedding application's concern; this module
//! owns every rule about what the index holds.

use vstd::prelude::*;
use vstd::utf8::encode_utf8;
use vstd::string::StringExecFns;
use crate::bytesutil::{xor_seq, xor_bytes, bytes_eq, push_all, push_str_bytes};
use crate::bytesutil::lemma_xor_involution;
use crate::hashing::{digest32, hex_of, hex_val_of, is_hex_seq, hex_encode, hex_decode, sha256d};
use crate::hashing::{sha256_hex, lemma_hex_round_trip};
use crate::keystream::{keystream, generate_keystream};
use crate::enclave::{same_identity, seal_blob, ukey, skey, vkey, TeeEnclave};
use crate::platform::now_ts;
use crate::storemap::{StoreMap, all_values_in};
use crate::TeeError;

verus! {

/// The storage key for one factor array: a hash of the owning id, the
/// array's label and a fixed domain tag, independent of any enclave.
pub open spec fn file_key_of(id: Seq<char>, label: Seq<char>) -> Seq<u8> {
    digest32(encode_utf8(id) + encode_utf8(label) + encode_utf8("dlrs-file-sealing-key-v1"@))
}

/// The keystream the storage key derives for a plaintext length.
pub open spec fn file_keystream(key: Seq<u8>, len: nat) -> Seq<u8> {
    keystream(key, encode_utf8("file-ks"@), len)
}

/// The MAC appended to a file-sealed blob.
pub open spec fn file_mac(key: Seq<u8>, plaintext: Seq<u8>) -> Seq<u8> {
    digest32(key + plaintext + encode_utf8("dlrs-file-seal-mac"@))
}

/// A file-sealed blob: ciphertext then MAC, no nonce — the derivation is
/// deterministic so that any process can reopen it.
pub open spec fn file_seal(plaintext: Seq<u8>, id: Seq<char>, label: Seq<char>) -> Seq<u8> {
    xor_seq(plaintext, file_keystream(file_key_of(id, label), plaintext.len())) + file_mac(
        file_key_of(id, label),
        plaintext,
    )
}

/// What a file-sealed blob opens to before authentication.
pub open spec fn file_unseal_plain(blob: Seq<u8>, id: Seq<char>, label: Seq<char>) -> Seq<u8> {
    let ct = blob.take(blob.len() - 32);
    xor_seq(ct, file_keystream(file_key_of(id, label), ct.len()))
}

/// Whether a file-sealed blob authenticates: long enough to carry a MAC,
/// and the MAC matches the recovered plaintext.
pub open spec fn file_unseal_ok(blob: Seq<u8>, id: Seq<char>, label: Seq<char>) -> bool {
    blob.len() >= 32 && blob.skip(blob.len() - 32) == file_mac(
        file_key_of(id, label),
        file_unseal_plain(blob, id, label),
    )
}

/// File sealing round trip: a freshly sealed blob authenticates under the
/// same id and label, and opens to exactly the plaintext — in any process,
/// since the key derivation is deterministic.
pub proof fn lemma_file_round_trip(plaintext: Seq<u8>, id: Seq<char>, label: Seq<char>)
    ensures
        file_unseal_ok(file_seal(plaintext, id, label), id, label),
        file_unseal_plain(file_seal(plaintext, id, label), id, label) == plaintext,
{
    let key = file_key_of(id, label);
    let ks = file_keystream(key, plaintext.len());
    let blob = file_seal(plaintext, id, label);
    assert(blob.len() == plaintext.len() + 32);
    assert(blob.take(blob.len() - 32) =~= xor_seq(plaintext, ks));
    assert(blob.skip(blob.len() - 32) =~= file_mac(key, plaintext));
    lemma_xor_involution(plaintext, ks);
    assert(file_unseal_plain(blob, id, label) == plaintext);
}

/// The bytes the record integrity hash covers: the three encoded blobs and
/// the owning id under a domain tag.
pub open spec fn integrity_input(
    su: Seq<char>,
    ss: Seq<char>,
    sv: Seq<char>,
    id: Seq<char>,
) -> Seq<u8> {
    encode_utf8(su) + encode_utf8(ss) + encode_utf8(sv) + encode_utf8(id) + encode_utf8(
        "dlrs-sealed-integrity-v1"@,
    )
}

/// The record integrity hash, in hexadecimal.
pub open spec fn integrity_hash_of(
    su: Seq<char>,
    ss: Seq<char>,
    sv: Seq<char>,
    id: Seq<char>,
) -> Seq<char> {
    hex_of(digest32(integrity_input(su, ss, sv, id)))
}

/// A sealed adapter record as persisted: public metadata, three
/// hex-encoded sealed factor blobs, the integrity hash, and provenance.
#[derive(Debug)]
pub struct SealedAdapterRecord {
    pub adapter_id: String,
    pub name: String,
    pub domains: Vec<String>,
    pub rank: usize,
    pub original_dims: (usize, usize),
    pub sealed_u: String,
    pub sealed_sigma: String,
    pub sealed_v: String,
    pub integrity_hash: String,
    pub sealed_at: i64,
    pub enclave_id: String,
}

/// Whether a record can be opened under its id: the integrity hash matches,
/// all three blobs are well-formed hexadecimal of a workable size, and each
/// authenticates under its storage key.
pub open spec fn record_openable(rec: &SealedAdapterRecord, id: Seq<char>) -> bool {
    &&& rec.integrity_hash@ == integrity_hash_of(
        rec.sealed_u@,
        rec.sealed_sigma@,
        rec.sealed_v@,
        id,
    )
    &&& is_hex_seq(rec.sealed_u@) && is_hex_seq(rec.sealed_sigma@) && is_hex_seq(rec.sealed_v@)
    &&& hex_val_of(rec.sealed_u@).len() + 16 <= usize::MAX
    &&& hex_val_of(rec.sealed_sigma@).len() + 16 <= usize::MAX
    &&& hex_val_of(rec.sealed_v@).len() + 16 <= usize::MAX
    &&& file_unseal_ok(hex_val_of(rec.sealed_u@), id, "U"@)
    &&& file_unseal_ok(hex_val_of(rec.sealed_sigma@), id, "S"@)
    &&& file_unseal_ok(hex_val_of(rec.sealed_v@), id, "V"@)
}

/// The factor array a record's blob opens to.
pub open spec fn record_plain(rec: &SealedAdapterRecord, id: Seq<char>, label: Seq<char>) -> Seq<
    u8,
> {
    if label == "U"@ {
        file_unseal_plain(hex_val_of(rec.sealed_u@), id, label)
    } else if label == "S"@ {
        file_unseal_plain(hex_val_of(rec.sealed_sigma@), id, label)
    } else {
        file_unseal_plain(hex_val_of(rec.sealed_v@), id, label)
    }
}

/// A record sealed from the given factor arrays is openable and opens back
/// to exactly those arrays: storage survives a process restart because
/// nothing in it depends on a live enclave.
pub proof fn lemma_record_round_trip(u: Seq<u8>, s: Seq<u8>, v: Seq<u8>, id: Seq<char>)
    requires
        u.len() + 48 <= usize::MAX,
        s.len() + 48 <= usize::MAX,
        v.len() + 48 <= usize::MAX,
    ensures
        ({
            let su = hex_of(file_seal(u, id, "U"@));
            let ss = hex_of(file_seal(s, id, "S"@));
            let sv = hex_of(file_seal(v, id, "V"@));
            &&& is_hex_seq(su) && is_hex_seq(ss) && is_hex_seq(sv)
            &&& file_unseal_ok(hex_val_of(su), id, "U"@)
            &&& file_unseal_ok(hex_val_of(ss), id, "S"@)
            &&& file_unseal_ok(hex_val_of(sv), id, "V"@)
            &&& file_unseal_plain(hex_val_of(su), id, "U"@) == u
            &&& file_unseal_plain(hex_val_of(ss), id, "S"@) == s
            &&& file_unseal_plain(hex_val_of(sv), id, "V"@) == v
            &&& hex_val_of(su).len() + 16 <= usize::MAX
            &&& hex_val_of(ss).len() + 16 <= usize::MAX
            &&& hex_val_of(sv).len() + 16 <= usize::MAX
        }),
{
    lemma_hex_round_trip(file_seal(u, id, "U"@));
    lemma_hex_round_trip(file_seal(s, id, "S"@));
    lemma_hex_round_trip(file_seal(v, id, "V"@));
    lemma_file_round_trip(u, id, "U"@);
    lemma_file_round_trip(s, id, "S"@);
    lemma_file_round_trip(v, id, "V"@);
}

/// Derive the storage key for one factor array.
fn derive_file_key(adapter_id: &str, label: &str) -> (r: Vec<u8>)
    ensures
        r@ == file_key_of(adapter_id@, label@),
        r@.len() == 32,
{
    let mut input: Vec<u8> = Vec::new();
    push_str_bytes(&mut input, adapter_id);
    push_str_bytes(&mut input, label);
    push_str_bytes(&mut input, "dlrs-file-sealing-key-v1");
    proof {
        assert(input@ =~= encode_utf8(adapter_id@) + encode_utf8(label@) + encode_utf8(
            "dlrs-file-sealing-key-v1"@,
        ));
    }
    sha256d(input.as_slice())
}

/// Compute the file-seal MAC.
fn file_mac_bytes(key: &[u8], plaintext: &[u8]) -> (r: Vec<u8>)
    ensures
        r@ == file_mac(key@, plaintext@),
        r@.len() == 32,
{
    let mut input: Vec<u8> = Vec::new();
    push_all(&mut input, key);
    push_all(&mut input, plaintext);
    push_str_bytes(&mut input, "dlrs-file-seal-mac");
    proof {
        assert(input@ =~= key@ + plaintext@ + encode_utf8("dlrs-file-seal-mac"@));
    }
    sha256d(input.as_slice())
}

/// Seal one factor array for file storage.
fn file_seal_bytes(plaintext: &[u8], adapter_id: &str, label: &str) -> (r: Vec<u8>)
    requires
        plaintext@.len() + 32 <= usize::MAX,
    ensures
        r@ == file_seal(plaintext@, adapter_id@, label@),
        r@.len() == plaintext@.len() + 32,
{
    let key = derive_file_key(adapter_id, label);
    let ks = generate_keystream(key.as_slice(), "file-ks".as_bytes(), plaintext.len());
    let ct = xor_bytes(plaintext, ks.as_slice());
    let mac = file_mac_bytes(key.as_slice(), plaintext);
    let mut blob = ct;
    push_all(&mut blob, mac.as_slice());
    proof {
        assert(blob@ =~= file_seal(plaintext@, adapter_id@, label@));
    }
    blob
}

/// Open one file-sealed blob, failing closed on any MAC mismatch.
fn file_unseal_bytes(blob: &[u8], adapter_id: &str, label: &str) -> (r: Result<Vec<u8>, TeeError>)
    ensures
        blob@.len() < 32 ==> (r matches Err(e) && e is SealingError),
        blob@.len() >= 32 && !file_unseal_ok(blob@, adapter_id@, label@) ==> (r matches Err(e)
            && e is IntegrityError),
        file_unseal_ok(blob@, adapter_id@, label@) ==> (r matches Ok(p) && p@ == file_unseal_plain(
            blob@,
            adapter_id@,
            label@,
        )),
{
    if blob.len() < 32 {
        return Err(TeeError::SealingError(String::from_str("Sealed data too short")));
    }
    let ct = vstd::slice::slice_subrange(blob, 0, blob.len() - 32);
    let mac = vstd::slice::slice_subrange(blob, blob.len() - 32, blob.len());
    let key = derive_file_key(adapter_id, label);
    let ks = generate_keystream(key.as_slice(), "file-ks".as_bytes(), ct.len());
    let plaintext = xor_bytes(ct, ks.as_slice());
    let expected_mac = file_mac_bytes(key.as_slice(), plaintext.as_slice());
    proof {
        assert(blob@.take(blob@.len() - 32) =~= ct@);
        assert(blob@.skip(blob@.len() - 32) =~= mac@);
    }
    if bytes_eq(mac, expected_mac.as_slice()) {
        Ok(plaintext)
    } else {
        Err(TeeError::IntegrityError(String::from_str("File seal MAC mismatch")))
    }
}

/// Index tracking all sealed adapter records: the unit of persistence.
pub struct SealedIndex {
    records: StoreMap<SealedAdapterRecord>,
    /// Number of records currently held.
    pub total_sealed: usize,
    /// When the index last changed, as a Unix timestamp.
    pub last_updated: i64,
}

impl SealedIndex {
    /// The records, as a map from adapter id to record.
    pub closed spec fn recs(&self) -> Map<Seq<char>, SealedAdapterRecord> {
        self.records@
    }

    /// The recorded count.
    pub closed spec fn total(&self) -> usize {
        self.total_sealed
    }

    /// The count always matches the map.
    pub closed spec fn wf(&self) -> bool {
        self.records.wf() && self.total_sealed == self.records@.dom().len()
    }

    /// An empty index.
    pub fn new() -> (r: SealedIndex)
        ensures
            r.wf(),
            r.recs() == Map::<Seq<char>, SealedAdapterRecord>::empty(),
            r.total() == 0,
    {
        let records = StoreMap::new();
        proof {
            assert(Map::<Seq<char>, SealedAdapterRecord>::empty().dom()
                =~= Set::<Seq<char>>::empty());
        }
        SealedIndex { records, total_sealed: 0, last_updated: 0 }
    }

    /// Look one record up by adapter id.
    pub fn records_get(&self, key: &String) -> (r: Option<&SealedAdapterRecord>)
        requires
            self.wf(),
        ensures
            r is Some <==> self.recs().dom().contains(key@),
            r matches Some(rec) ==> *rec == self.recs()[key@],
    {
        self.records.get(key)
    }

    /// Remove one record by adapter id; reports whether it was present.
    pub fn records_remove(&mut self, key: &String) -> (r: bool)
        requires
            old(self).wf(),
        ensures
            final(self).wf(),
            r == old(self).recs().dom().contains(key@),
            final(self).recs() == old(self).recs().remove(key@),
            final(self).total() == final(self).recs().dom().len(),
    {
        let removed = self.records.remove(key);
        self.total_sealed = self.records.len();
        removed
    }

    /// How many records the index holds.
    pub fn records_len(&self) -> (r: usize)
        requires
            self.wf(),
        ensures
            r == self.recs().dom().len(),
    {
        self.records.len()
    }

    /// A reference to every record.
    pub fn records_values(&self) -> (r: Vec<&SealedAdapterRecord>)
        requires
            self.wf(),
        ensures
            r@.len() == self.recs().dom().len(),
            all_values_in(r@, self.recs()),
    {
        self.records.values()
    }

    /// Restore one record, keyed by its adapter id: how a persisted index
    /// is rebuilt record by record.
    pub fn insert_record(&mut self, record: SealedAdapterRecord)
        requires
            old(self).wf(),
        ensures
            final(self).wf(),
            final(self).recs() == old(self).recs().insert(record.adapter_id@, record),
            final(self).total() == final(self).recs().dom().len(),
    {
        let key = record.adapter_id.clone();
        self.records.insert(key, record);
        self.total_sealed = self.records.len();
    }
}

impl Default for SealedIndex {
    /// An empty index.
    fn default() -> (r: SealedIndex)
        ensures
            r.wf(),
            r.recs() == Map::<Seq<char>, SealedAdapterRecord>::empty(),
            r.total() == 0,
    {
        SealedIndex::new()
    }
}

/// Persistent sealed-storage manager: the index plus the directory the
/// embedding application persists it under.
pub struct SealedStorage {
    storage_dir: String,
    index: SealedIndex,
}

impl SealedStorage {
    /// The records, as a map from adapter id to record.
    pub closed spec fn recs(&self) -> Map<Seq<char>, SealedAdapterRecord> {
        self.index.recs()
    }

    /// The storage directory.
    pub closed spec fn dir(&self) -> Seq<char> {
        self.storage_dir@
    }

    /// The index is well-formed.
    pub closed spec fn wf(&self) -> bool {
        self.index.wf()
    }

    /// A storage manager over an empty index.
    pub fn new(storage_dir: &str) -> (r: SealedStorage)
        ensures
            r.wf(),
            r.dir() == storage_dir@,
            r.recs() == Map::<Seq<char>, SealedAdapterRecord>::empty(),
    {
        SealedStorage { storage_dir: String::from_str(storage_dir), index: SealedIndex::new() }
    }

    /// A storage manager over an index restored by the application.
    pub fn from_index(storage_dir: &str, index: SealedIndex) -> (r: SealedStorage)
        requires
            index.wf(),
        ensures
            r.wf(),
            r.dir() == storage_dir@,
            r.recs() == index.recs(),
    {
        SealedStorage { storage_dir: String::from_str(storage_dir), index }
    }

    /// The index, for the application to persist.
    pub fn index_ref(&self) -> (r: &SealedIndex)
        ensures
            r.recs() == self.recs(),
            r.wf() == self.wf(),
    {
        &self.index
    }

    /// Seal an adapter's factor arrays: into the live enclave's volatile
    /// store for immediate use and, independently, under storage-specific
    /// keys for durability; then upsert the record into the index.
    pub fn seal_adapter(
        &mut self,
        enclave: &mut TeeEnclave,
        adapter_id: &str,
        name: &str,
        domains: Vec<String>,
        rank: usize,
        original_dims: (usize, usize),
        u_data: &[u8],
        sigma_data: &[u8],
        v_data: &[u8],
    ) -> (r: Result<(), TeeError>)
        requires
            old(self).wf(),
            old(enclave).wf(),
            u_data@.len() + 48 <= usize::MAX,
            sigma_data@.len() + 48 <= usize::MAX,
            v_data@.len() + 48 <= usize::MAX,
        ensures
            final(self).wf(),
            final(enclave).wf(),
            r is Ok,
            same_identity(old(enclave), final(enclave)),
            exists|n1: Seq<u8>, n2: Seq<u8>, n3: Seq<u8>| #![auto]
                n1.len() == 16 && n2.len() == 16 && n3.len() == 16 && final(enclave).store() == old(
                    enclave,
                ).store().insert(
                    ukey(adapter_id@),
                    seal_blob(old(enclave).key(), n1, u_data@),
                ).insert(
                    skey(adapter_id@),
                    seal_blob(old(enclave).key(), n2, sigma_data@),
                ).insert(vkey(adapter_id@), seal_blob(old(enclave).key(), n3, v_data@)),
            final(self).recs().dom().contains(adapter_id@),
            ({
                let rec = final(self).recs()[adapter_id@];
                &&& rec.adapter_id@ == adapter_id@
                &&& rec.name@ == name@
                &&& rec.domains == domains
                &&& rec.rank == rank
                &&& rec.original_dims == original_dims
                &&& rec.sealed_u@ == hex_of(file_seal(u_data@, adapter_id@, "U"@))
                &&& rec.sealed_sigma@ == hex_of(file_seal(sigma_data@, adapter_id@, "S"@))
                &&& rec.sealed_v@ == hex_of(file_seal(v_data@, adapter_id@, "V"@))
                &&& rec.integrity_hash@ == integrity_hash_of(
                    rec.sealed_u@,
                    rec.sealed_sigma@,
                    rec.sealed_v@,
                    adapter_id@,
                )
                &&& rec.enclave_id@ == old(enclave).id_view()
                &&& final(self).recs() == old(self).recs().insert(adapter_id@, rec)
            }),
            final(self).dir() == old(self).dir(),
    {
        let _ = enclave.seal_matrix_factors(adapter_id, u_data, sigma_data, v_data);
        let sealed_u_bytes = file_seal_bytes(u_data, adapter_id, "U");
        let sealed_u = hex_encode(sealed_u_bytes.as_slice());
        let sealed_sigma_bytes = file_seal_bytes(sigma_data, adapter_id, "S");
        let sealed_sigma = hex_encode(sealed_sigma_bytes.as_slice());
        let sealed_v_bytes = file_seal_bytes(v_data, adapter_id, "V");
        let sealed_v = hex_encode(sealed_v_bytes.as_slice());
        let integrity_hash = compute_integrity_hash(
            sealed_u.as_str(),
            sealed_sigma.as_str(),
            sealed_v.as_str(),
            adapter_id,
        );
        let record = SealedAdapterRecord {
            adapter_id: String::from_str(adapter_id),
            name: String::from_str(name),
            domains,
            rank,
            original_dims,
            sealed_u,
            sealed_sigma,
            sealed_v,
            integrity_hash,
            sealed_at: now_ts(),
            enclave_id: String::from_str(enclave.id_str()),
        };
        self.index.insert_record(record);
        self.index.last_updated = now_ts();
        Ok(())
    }

    /// Unseal an adapter from persistent storage: check the integrity hash
    /// before any decryption, open each blob fail-closed under its storage
    /// key, re-seal the arrays into the supplied enclave's volatile store,
    /// and return them. Succeeds exactly when the record is present and
    /// openable.
    #[verifier::rlimit(60)]
    #[verifier::spinoff_prover]
    pub fn unseal_adapter(&self, enclave: &mut TeeEnclave, adapter_id: &str) -> (r: Result<
        (Vec<u8>, Vec<u8>, Vec<u8>),
        TeeError,
    >)
        requires
            self.wf(),
            old(enclave).wf(),
        ensures
            final(enclave).wf(),
            r is Ok <==> self.recs().dom().contains(adapter_id@) && record_openable(
                &self.recs()[adapter_id@],
                adapter_id@,
            ),
            r is Err ==> *final(enclave) == *old(enclave),
            !self.recs().dom().contains(adapter_id@) ==> (r matches Err(e) && e is KeyNotFound),
            self.recs().dom().contains(adapter_id@) && self.recs()[adapter_id@].integrity_hash@
                != integrity_hash_of(
                self.recs()[adapter_id@].sealed_u@,
                self.recs()[adapter_id@].sealed_sigma@,
                self.recs()[adapter_id@].sealed_v@,
                adapter_id@,
            ) ==> (r matches Err(e) && e is IntegrityError),
            r matches Ok(t) ==> ({
                let rec = self.recs()[adapter_id@];
                &&& t.0@ == record_plain(&rec, adapter_id@, "U"@)
                &&& t.1@ == record_plain(&rec, adapter_id@, "S"@)
                &&& t.2@ == record_plain(&rec, adapter_id@, "V"@)
            }),
            r is Ok ==> same_identity(old(enclave), final(enclave)),
            r is Ok ==> exists|n1: Seq<u8>, n2: Seq<u8>, n3: Seq<u8>| #![auto]
                n1.len() == 16 && n2.len() == 16 && n3.len() == 16 && final(enclave).store()
                    == old(enclave).store().insert(
                    ukey(adapter_id@),
                    seal_blob(
                        old(enclave).key(),
                        n1,
                        record_plain(&self.recs()[adapter_id@], adapter_id@, "U"@),
                    ),
                ).insert(
                    skey(adapter_id@),
                    seal_blob(
                        old(enclave).key(),
                        n2,
                        record_plain(&self.recs()[adapter_id@], adapter_id@, "S"@),
                    ),
                ).insert(
                    vkey(adapter_id@),
                    seal_blob(
                        old(enclave).key(),
                        n3,
                        record_plain(&self.recs()[adapter_id@], adapter_id@, "V"@),
                    ),
                ),
    {
        let key = String::from_str(adapter_id);
        let record = match self.index.records_get(&key) {
            Some(r) => r,
            None => {
                return Err(TeeError::KeyNotFound(key));
            },
        };
        let expected_hash = compute_integrity_hash(
            record.sealed_u.as_str(),
            record.sealed_sigma.as_str(),
            record.sealed_v.as_str(),
            adapter_id,
        );
        if record.integrity_hash != expected_hash {
            return Err(
                TeeError::IntegrityError(
                    String::from_str("Sealed adapter integrity check failed"),
                ),
            );
        }
        let u_sealed = match hex_decode(record.sealed_u.as_str()) {
            Some(b) => b,
            None => {
                return Err(TeeError::SealingError(String::from_str("Hex decode failed")));
            },
        };
        let s_sealed = match hex_decode(record.sealed_sigma.as_str()) {
            Some(b) => b,
            None => {
                return Err(TeeError::SealingError(String::from_str("Hex decode failed")));
            },
        };
        let v_sealed = match hex_decode(record.sealed_v.as_str()) {
            Some(b) => b,
            None => {
                return Err(TeeError::SealingError(String::from_str("Hex decode failed")));
            },
        };
        if u_sealed.len() > usize::MAX - 16 || s_sealed.len() > usize::MAX - 16 || v_sealed.len()
            > usize::MAX - 16 {
            return Err(TeeError::SealingError(String::from_str("Sealed data too large")));
        }
        let u = match file_unseal_bytes(u_sealed.as_slice(), adapter_id, "U") {
            Ok(p) => p,
            Err(e) => {
                return Err(e);
            },
        };
        let s = match file_unseal_bytes(s_sealed.as_slice(), adapter_id, "S") {
            Ok(p) => p,
            Err(e) => {
                return Err(e);
            },
        };
        let v = match file_unseal_bytes(v_sealed.as_slice(), adapter_id, "V") {
            Ok(p) => p,
            Err(e) => {
                return Err(e);
            },
        };
        let ghost u0 = u@;
        let ghost s0 = s@;
        let ghost v0 = v@;
        let _ = enclave.seal_matrix_factors(adapter_id, u.as_slice(), s.as_slice(), v.as_slice());
        let result = (u, s, v);
        proof {
            reveal_strlit("U");
            reveal_strlit("S");
            reveal_strlit("V");
            assert("U"@ != "S"@ && "U"@ != "V"@ && "S"@ != "V"@);
            let (n1, n2, n3) = choose|n1: Seq<u8>, n2: Seq<u8>, n3: Seq<u8>|
                #![auto]
                n1.len() == 16 && n2.len() == 16 && n3.len() == 16 && enclave.store() == old(
                    enclave,
                ).store().insert(ukey(adapter_id@), seal_blob(old(enclave).key(), n1, u0)).insert(
                    skey(adapter_id@),
                    seal_blob(old(enclave).key(), n2, s0),
                ).insert(vkey(adapter_id@), seal_blob(old(enclave).key(), n3, v0));
            assert(u0 == record_plain(&self.recs()[adapter_id@], adapter_id@, "U"@));
            assert(s0 == record_plain(&self.recs()[adapter_id@], adapter_id@, "S"@));
            assert(v0 == record_plain(&self.recs()[adapter_id@], adapter_id@, "V"@));
            assert(exists|n1: Seq<u8>, n2: Seq<u8>, n3: Seq<u8>|
                #![auto]
                n1.len() == 16 && n2.len() == 16 && n3.len() == 16 && enclave.store() == old(
                    enclave,
                ).store().insert(
                    ukey(adapter_id@),
                    seal_blob(
                        old(enclave).key(),
                        n1,
                        record_plain(&self.recs()[adapter_id@], adapter_id@, "U"@),
                    ),
                ).insert(
                    skey(adapter_id@),
                    seal_blob(
                        old(enclave).key(),
                        n2,
                        record_plain(&self.recs()[adapter_id@], adapter_id@, "S"@),
                    ),
                ).insert(
                    vkey(adapter_id@),
                    seal_blob(
                        old(enclave).key(),
                        n3,
                        record_plain(&self.recs()[adapter_id@], adapter_id@, "V"@),
                    ),
                ));
        }
        Ok(result)
    }

    /// Every sealed adapter record.
    pub fn list_sealed(&self) -> (r: Vec<&SealedAdapterRecord>)
        requires
            self.wf(),
        ensures
            r@.len() == self.recs().dom().len(),
            all_values_in(r@, self.recs()),
    {
        self.index.records_values()
    }

    /// The record for one adapter id, if present.
    pub fn get_record(&self, adapter_id: &str) -> (r: Option<&SealedAdapterRecord>)
        requires
            self.wf(),
        ensures
            r is Some <==> self.recs().dom().contains(adapter_id@),
            r matches Some(rec) ==> *rec == self.recs()[adapter_id@],
    {
        let key = String::from_str(adapter_id);
        self.index.records_get(&key)
    }

    /// Remove a sealed adapter; reports whether it was present.
    pub fn remove_sealed(&mut self, adapter_id: &str) -> (r: Result<bool, TeeError>)
        requires
            old(self).wf(),
        ensures
            final(self).wf(),
            r matches Ok(removed) && removed == old(self).recs().dom().contains(adapter_id@),
            final(self).recs() == old(self).recs().remove(adapter_id@),
            final(self).dir() == old(self).dir(),
    {
        let key = String::from_str(adapter_id);
        let removed = self.index.records_remove(&key);
        if removed {
            self.index.last_updated = now_ts();
        }
        Ok(removed)
    }

    /// How many adapters are sealed.
    pub fn count(&self) -> (r: usize)
        requires
            self.wf(),
        ensures
            r == self.recs().dom().len(),
    {
        self.index.records_len()
    }
}

/// Compute the integrity hash over the three encoded blobs and the id.
fn compute_integrity_hash(su: &str, ss: &str, sv: &str, adapter_id: &str) -> (r: String)
    ensures
        r@ == integrity_hash_of(su@, ss@, sv@, adapter_id@),
{
    let mut input: Vec<u8> = Vec::new();
    push_str_bytes(&mut input, su);
    push_str_bytes(&mut input, ss);
    push_str_bytes(&mut input, sv);
    push_str_bytes(&mut input, adapter_id);
    push_str_bytes(&mut input, "dlrs-sealed-integrity-v1");
    proof {
        assert(input@ =~= integrity_input(su@, ss@, sv@, adapter_id@));
    }
    sha256_hex(input.as_slice())
}

} // verus!
