//! The secure channel: mutual attestation between two enclaves, derivation
//! of a shared session key from both sides' ephemeral public values in a
//! canonical order (so both roles compute the same key), and
//! replay-protected encrypted messaging. No encrypt or decrypt succeeds
//! unless the channel is Established and holds a session key.

use vstd::prelude::*;
use vstd::utf8::encode_utf8;
use vstd::string::StringExecFns;
use vstd::bytes::{spec_u64_to_le_bytes, u64_to_le_bytes};
use crate::bytesutil::{xor_seq, xor_bytes, push_all, push_str_bytes, bytes_lex_lt, lex_lt};
use crate::bytesutil::{lemma_lex_lt_asymmetric, lemma_lex_lt_total, lemma_xor_involution};
use crate::hashing::{digest32, hex_of, hex_val_of, is_hex_seq, hex_encode, hex_decode, sha256d};
use crate::hashing::lemma_hex_round_trip;
use crate::keystream::{keystream, generate_keystream};
use crate::attestation::{
    generate_quote, verify_quote, spec_verify_quote, verdict_matches, quote_signature,
    AttestationPolicy, AttestationQuote, AttestationVerdict,
};
use crate::enclave::{SecurityLevel, TeeEnclave};
use crate::platform::{now_ts, random_bytes32, uuid_string};
use crate::TeeError;

verus! {

/// State of a secure channel. Established and Closed are terminal for the
/// handshake; Closed may also be reached from Established by `close`.
#[derive(Debug, Clone, Copy, PartialEq, Eq, Structural)]
pub enum ChannelState {
    /// Initial state, waiting for handshake.
    Pending,
    /// Attestation in progress.
    Attesting,
    /// Channel established and ready for use.
    Established,
    /// Channel closed or failed.
    Closed,
}

/// An encrypted message on the secure channel.
#[derive(Debug, Clone)]
pub struct SecureMessage {
    pub channel_id: String,
    pub sequence: u64,
    pub ciphertext: String,
    pub mac: String,
    pub timestamp: i64,
}

/// Handshake initiation message.
#[derive(Debug, Clone)]
pub struct HandshakeInit {
    pub channel_id: String,
    pub quote: AttestationQuote,
    pub dh_public: String,
}

/// Handshake response message.
#[derive(Debug, Clone)]
pub struct HandshakeResponse {
    pub channel_id: String,
    pub quote: AttestationQuote,
    pub dh_public: String,
    pub accepted: bool,
    pub reason: Option<String>,
}

/// The keystream a session key derives for one message sequence number.
pub open spec fn msg_keystream(key: Seq<u8>, seqno: u64, len: nat) -> Seq<u8> {
    keystream(key + spec_u64_to_le_bytes(seqno), encode_utf8("msg-ks"@), len)
}

/// The MAC of one message: a hash over session key, sequence number and
/// plaintext under a domain tag.
pub open spec fn msg_mac(key: Seq<u8>, seqno: u64, plaintext: Seq<u8>) -> Seq<u8> {
    digest32(
        key + spec_u64_to_le_bytes(seqno) + plaintext + encode_utf8("dlrs-channel-mac-v1"@),
    )
}

/// The session key both sides derive: a hash over the two ephemeral public
/// values in lexicographic order of their bytes, the channel id, and a
/// domain tag. The ordering makes the derivation independent of role.
pub open spec fn session_key_of(dh_a: Seq<char>, dh_b: Seq<char>, cid: Seq<char>) -> Seq<u8> {
    let a = encode_utf8(dh_a);
    let b = encode_utf8(dh_b);
    let ordered = if lex_lt(a, b) {
        a + b
    } else {
        b + a
    };
    digest32(ordered + encode_utf8(cid) + encode_utf8("dlrs-session-key-v1"@))
}

/// Session symmetry: the key does not depend on which side contributed
/// which ephemeral value, so both roles of a completed handshake derive
/// the identical session key.
pub proof fn lemma_session_key_symmetric(dh_a: Seq<char>, dh_b: Seq<char>, cid: Seq<char>)
    ensures
        session_key_of(dh_a, dh_b, cid) == session_key_of(dh_b, dh_a, cid),
{
    let a = encode_utf8(dh_a);
    let b = encode_utf8(dh_b);
    if lex_lt(a, b) {
        lemma_lex_lt_asymmetric(a, b);
    } else if lex_lt(b, a) {
    } else {
        lemma_lex_lt_total(a, b);
    }
}

/// The plaintext a message's hexadecimal ciphertext opens to under a key.
pub open spec fn recovered_of(key: Seq<u8>, seqno: u64, ct_chars: Seq<char>) -> Seq<u8> {
    let ct = hex_val_of(ct_chars);
    xor_seq(ct, msg_keystream(key, seqno, ct.len()))
}

/// Whether a message's MAC verifies over the plaintext it opens to.
pub open spec fn mac_ok_of(
    key: Seq<u8>,
    seqno: u64,
    ct_chars: Seq<char>,
    mac_chars: Seq<char>,
) -> bool {
    mac_chars == hex_of(msg_mac(key, seqno, recovered_of(key, seqno, ct_chars)))
}

/// Message round trip: the envelope an established channel produces for a
/// plaintext decodes, opens to exactly that plaintext, and its MAC
/// verifies, under the same session key.
pub proof fn lemma_message_round_trip(key: Seq<u8>, seqno: u64, plaintext: Seq<u8>)
    ensures
        ({
            let ct = hex_of(xor_seq(plaintext, msg_keystream(key, seqno, plaintext.len())));
            let mac = hex_of(msg_mac(key, seqno, plaintext));
            &&& is_hex_seq(ct)
            &&& recovered_of(key, seqno, ct) == plaintext
            &&& mac_ok_of(key, seqno, ct, mac)
        }),
{
    let ks = msg_keystream(key, seqno, plaintext.len());
    let xored = xor_seq(plaintext, ks);
    lemma_hex_round_trip(xored);
    lemma_xor_involution(plaintext, ks);
    assert(recovered_of(key, seqno, hex_of(xored)) == plaintext);
}

/// A secure channel endpoint.
pub struct SecureChannel {
    /// Channel identifier; the responder adopts the initiator's.
    pub channel_id: String,
    /// Local enclave id.
    pub local_enclave_id: String,
    /// Remote enclave id, set once the peer is authenticated.
    pub remote_enclave_id: Option<String>,
    /// Current state.
    pub state: ChannelState,
    /// Session key, present exactly while Established.
    session_key: Option<Vec<u8>>,
    /// Next sequence number to send.
    send_counter: u64,
    /// Lowest sequence number still accepted.
    recv_counter: u64,
    /// Remote security level, set once the peer is authenticated.
    pub remote_security_level: Option<SecurityLevel>,
    /// When the channel was established.
    pub established_at: Option<i64>,
    /// Policy used to authenticate the peer.
    policy: AttestationPolicy,
}

impl SecureChannel {
    /// The channel id, as a character sequence.
    pub closed spec fn cid(&self) -> Seq<char> {
        self.channel_id@
    }

    /// The local enclave id, as a character sequence.
    pub closed spec fn local_id(&self) -> Seq<char> {
        self.local_enclave_id@
    }

    /// The remote enclave id, once authenticated.
    pub closed spec fn remote_id(&self) -> Option<Seq<char>> {
        match self.remote_enclave_id {
            Some(s) => Some(s@),
            None => None,
        }
    }

    /// The channel state.
    pub closed spec fn chan_state(&self) -> ChannelState {
        self.state
    }

    /// The session key, present exactly while Established.
    pub closed spec fn session(&self) -> Option<Seq<u8>> {
        match self.session_key {
            Some(k) => Some(k@),
            None => None,
        }
    }

    /// The next send sequence number.
    pub closed spec fn send_ctr(&self) -> u64 {
        self.send_counter
    }

    /// The lowest sequence number still accepted.
    pub closed spec fn recv_ctr(&self) -> u64 {
        self.recv_counter
    }

    /// The remote security level, once authenticated.
    pub closed spec fn remote_level(&self) -> Option<SecurityLevel> {
        self.remote_security_level
    }

    /// The policy the channel authenticates peers against.
    pub closed spec fn policy_view(&self) -> AttestationPolicy {
        self.policy
    }

    /// When the channel was established.
    pub closed spec fn est_at(&self) -> Option<i64> {
        self.established_at
    }

    /// A session key is held exactly while Established, and is 32 bytes.
    pub closed spec fn wf(&self) -> bool {
        &&& (self.state is Established <==> self.session_key is Some)
        &&& match self.session_key {
            Some(k) => k@.len() == 32,
            None => true,
        }
    }

    /// Create a channel on the initiator side: Pending, fresh id, zeroed
    /// counters, no key.
    pub fn new(local_enclave_id: &str, policy: AttestationPolicy) -> (r: SecureChannel)
        ensures
            r.wf(),
            r.cid().len() == 36,
            r.local_id() == local_enclave_id@,
            r.remote_id() is None,
            r.chan_state() is Pending,
            r.session() is None,
            r.send_ctr() == 0,
            r.recv_ctr() == 0,
            r.remote_level() is None,
            r.est_at() is None,
            r.policy_view() == policy,
    {
        SecureChannel {
            channel_id: uuid_string(),
            local_enclave_id: String::from_str(local_enclave_id),
            remote_enclave_id: None,
            state: ChannelState::Pending,
            session_key: None,
            send_counter: 0,
            recv_counter: 0,
            remote_security_level: None,
            established_at: None,
            policy,
        }
    }

    /// Whether the channel is Established and holds a session key.
    pub fn is_established(&self) -> (r: bool)
        ensures
            r == (self.chan_state() is Established && self.session() is Some),
    {
        matches!(self.state, ChannelState::Established) && self.session_key.is_some()
    }

    /// Discard the session key and close the channel; irreversible.
    pub fn close(&mut self)
        ensures
            final(self).wf(),
            final(self).chan_state() is Closed,
            final(self).session() is None,
            final(self).cid() == old(self).cid(),
            final(self).local_id() == old(self).local_id(),
            final(self).remote_id() == old(self).remote_id(),
            final(self).send_ctr() == old(self).send_ctr(),
            final(self).recv_ctr() == old(self).recv_ctr(),
            final(self).remote_level() == old(self).remote_level(),
            final(self).est_at() == old(self).est_at(),
            final(self).policy_view() == old(self).policy_view(),
    {
        self.session_key = None;
        self.state = ChannelState::Closed;
    }
}

/// Build a channel-scoped nonce: `channel-` + the channel id + a suffix.
fn channel_nonce(cid: &str, suffix: &str) -> (r: String)
    ensures
        r@ == "channel-"@ + cid@ + suffix@,
{
    let r = String::from_str("channel-").concat(cid).concat(suffix);
    proof {
        assert(r@ =~= "channel-"@ + cid@ + suffix@);
    }
    r
}

/// Generate an ephemeral public value: a hexadecimal hash over the channel
/// id, the enclave id and fresh randomness under a domain tag.
fn generate_dh_public(channel_id: &str, enclave_id: &str) -> (r: String)
    ensures
        exists|seed: Seq<u8>| #![auto]
            seed.len() == 32 && r@ == hex_of(
                digest32(
                    encode_utf8(channel_id@) + encode_utf8(enclave_id@) + seed + encode_utf8(
                        "dlrs-dh-public-v1"@,
                    ),
                ),
            ),
        r@.len() == 64,
{
    let seed = random_bytes32();
    let mut input: Vec<u8> = Vec::new();
    push_str_bytes(&mut input, channel_id);
    push_str_bytes(&mut input, enclave_id);
    push_all(&mut input, seed.as_slice());
    push_str_bytes(&mut input, "dlrs-dh-public-v1");
    proof {
        assert(input@ =~= encode_utf8(channel_id@) + encode_utf8(enclave_id@) + seed@
            + encode_utf8("dlrs-dh-public-v1"@));
    }
    let digest = sha256d(input.as_slice());
    hex_encode(digest.as_slice())
}

/// Derive the session key from both ephemeral public values and the channel
/// id, ordering the values canonically so both roles agree.
fn derive_session_key(dh_a: &str, dh_b: &str, channel_id: &str) -> (r: Vec<u8>)
    ensures
        r@ == session_key_of(dh_a@, dh_b@, channel_id@),
        r@.len() == 32,
{
    let ab = dh_a.as_bytes();
    let bb = dh_b.as_bytes();
    let mut input: Vec<u8> = Vec::new();
    if bytes_lex_lt(ab, bb) {
        push_all(&mut input, ab);
        push_all(&mut input, bb);
    } else {
        push_all(&mut input, bb);
        push_all(&mut input, ab);
    }
    push_str_bytes(&mut input, channel_id);
    push_str_bytes(&mut input, "dlrs-session-key-v1");
    proof {
        let a = encode_utf8(dh_a@);
        let b = encode_utf8(dh_b@);
        let ordered = if lex_lt(a, b) {
            a + b
        } else {
            b + a
        };
        assert(input@ =~= ordered + encode_utf8(channel_id@) + encode_utf8(
            "dlrs-session-key-v1"@,
        ));
    }
    sha256d(input.as_slice())
}

/// Compute a message MAC in its hexadecimal wire form.
fn msg_mac_hex(key: &[u8], seqno: u64, plaintext: &[u8]) -> (r: String)
    ensures
        r@ == hex_of(msg_mac(key@, seqno, plaintext@)),
{
    let mut input: Vec<u8> = Vec::new();
    push_all(&mut input, key);
    let seq_bytes = u64_to_le_bytes(seqno);
    push_all(&mut input, seq_bytes.as_slice());
    push_all(&mut input, plaintext);
    push_str_bytes(&mut input, "dlrs-channel-mac-v1");
    proof {
        assert(input@ =~= key@ + spec_u64_to_le_bytes(seqno) + plaintext@ + encode_utf8(
            "dlrs-channel-mac-v1"@,
        ));
    }
    let digest = sha256d(input.as_slice());
    hex_encode(digest.as_slice())
}

/// Generate one message keystream.
fn msg_keystream_bytes(key: &[u8], seqno: u64, len: usize) -> (r: Vec<u8>)
    ensures
        r@ == msg_keystream(key@, seqno, len as nat),
        r@.len() == len,
{
    let mut prefix: Vec<u8> = Vec::new();
    push_all(&mut prefix, key);
    let seq_bytes = u64_to_le_bytes(seqno);
    push_all(&mut prefix, seq_bytes.as_slice());
    generate_keystream(prefix.as_slice(), "msg-ks".as_bytes(), len)
}

impl SecureChannel {
    /// Begin the handshake on the initiator side: move to Attesting, bind a
    /// quote to the channel-scoped init nonce, and produce a fresh ephemeral
    /// public value.
    pub fn initiate_handshake(&mut self, enclave: &TeeEnclave) -> (r: HandshakeInit)
        requires
            old(self).wf(),
            old(self).chan_state() is Pending,
            enclave.wf(),
        ensures
            final(self).wf(),
            final(self).chan_state() is Attesting,
            final(self).cid() == old(self).cid(),
            final(self).local_id() == old(self).local_id(),
            final(self).remote_id() == old(self).remote_id(),
            final(self).session() is None,
            final(self).send_ctr() == old(self).send_ctr(),
            final(self).recv_ctr() == old(self).recv_ctr(),
            final(self).policy_view() == old(self).policy_view(),
            r.channel_id@ == old(self).cid(),
            r.quote.nonce@ == "channel-"@ + old(self).cid() + "-init"@,
            r.quote.measurement == enclave.meas_view(),
            r.quote.security_level == enclave.sec_level(),
            r.quote.signature@ == quote_signature(
                enclave.meas_view(),
                "channel-"@ + old(self).cid() + "-init"@,
                enclave.id_view(),
                (enclave.store().dom().len() / 3) as u64,
            ),
            r.dh_public@.len() == 64,
    {
        self.state = ChannelState::Attesting;
        let nonce = channel_nonce(self.channel_id.as_str(), "-init");
        let quote = generate_quote(enclave, nonce.as_str());
        let dh_public = generate_dh_public(self.channel_id.as_str(), enclave.id_str());
        HandshakeInit { channel_id: self.channel_id.clone(), quote, dh_public }
    }

    /// Process a handshake initiation on the responder side: adopt the
    /// peer's channel id and verify its quote against the local policy. On a
    /// Trusted verdict the channel derives the session key and is
    /// Established; on any other verdict it closes, holds no key, and still
    /// answers with its own quote so the rejection remains attestable.
    pub fn respond_to_handshake(&mut self, enclave: &TeeEnclave, init: &HandshakeInit) -> (r:
        HandshakeResponse)
        requires
            old(self).wf(),
            enclave.wf(),
        ensures
            final(self).wf(),
            final(self).cid() == init.channel_id@,
            final(self).local_id() == old(self).local_id(),
            final(self).policy_view() == old(self).policy_view(),
            final(self).send_ctr() == old(self).send_ctr(),
            final(self).recv_ctr() == old(self).recv_ctr(),
            r.channel_id@ == init.channel_id@,
            r.quote.measurement == enclave.meas_view(),
            r.quote.security_level == enclave.sec_level(),
            r.quote.signature@ == quote_signature(
                enclave.meas_view(),
                r.quote.nonce@,
                enclave.id_view(),
                (enclave.store().dom().len() / 3) as u64,
            ),
            exists|now: int|
                -10_000_000_000_000 <= now <= 10_000_000_000_000 && (r.accepted
                    <==> spec_verify_quote(&init.quote, &old(self).policy_view(), now) is Trusted),
            r.accepted ==> ({
                &&& final(self).chan_state() is Established
                &&& final(self).session() == Some(
                    session_key_of(init.dh_public@, r.dh_public@, init.channel_id@),
                )
                &&& r.dh_public@.len() == 64
                &&& final(self).remote_id() == Some(init.quote.enclave_data.enclave_id@)
                &&& final(self).remote_level() == Some(init.quote.security_level)
                &&& final(self).est_at() is Some
                &&& r.quote.nonce@ == "channel-"@ + init.channel_id@ + "-resp"@
                &&& r.reason is None
            }),
            !r.accepted ==> ({
                &&& final(self).chan_state() is Closed
                &&& final(self).session() is None
                &&& r.quote.nonce@ == "channel-"@ + init.channel_id@ + "-reject"@
                &&& (r.reason matches Some(s) && s@ == "Attestation failed"@)
                &&& r.dh_public@.len() == 0
            }),
    {
        self.channel_id = init.channel_id.clone();
        self.state = ChannelState::Attesting;
        let verdict = verify_quote(&init.quote, &self.policy);
        let ghost v0 = verdict;
        let ghost now0 = choose|now: int|
            -10_000_000_000_000 <= now <= 10_000_000_000_000 && verdict_matches(
                &v0,
                &init.quote,
                &old(self).policy_view(),
                now,
            );
        match verdict {
            AttestationVerdict::Trusted { enclave_id, security_level } => {
                self.remote_enclave_id = Some(enclave_id);
                self.remote_security_level = Some(security_level);
                let nonce = channel_nonce(self.channel_id.as_str(), "-resp");
                let quote = generate_quote(enclave, nonce.as_str());
                let dh_public = generate_dh_public(self.channel_id.as_str(), enclave.id_str());
                let session_key = derive_session_key(
                    init.dh_public.as_str(),
                    dh_public.as_str(),
                    self.channel_id.as_str(),
                );
                self.session_key = Some(session_key);
                self.state = ChannelState::Established;
                self.established_at = Some(now_ts());
                HandshakeResponse {
                    channel_id: self.channel_id.clone(),
                    quote,
                    dh_public,
                    accepted: true,
                    reason: None,
                }
            },
            _ => {
                self.state = ChannelState::Closed;
                self.session_key = None;
                let nonce = channel_nonce(self.channel_id.as_str(), "-reject");
                let quote = generate_quote(enclave, nonce.as_str());
                HandshakeResponse {
                    channel_id: self.channel_id.clone(),
                    quote,
                    dh_public: String::new(),
                    accepted: false,
                    reason: Some(String::from_str("Attestation failed")),
                }
            },
        }
    }

    /// Complete the handshake on the initiator side. A rejected response
    /// fails with the peer's reason and closes the channel; otherwise the
    /// responder's quote is verified and, when Trusted, the session key is
    /// derived with the same canonical ordering, so both sides agree.
    pub fn complete_handshake(&mut self, response: &HandshakeResponse, our_dh_public: &str) -> (r:
        Result<(), TeeError>)
        requires
            old(self).wf(),
        ensures
            final(self).wf(),
            final(self).cid() == old(self).cid(),
            final(self).local_id() == old(self).local_id(),
            final(self).policy_view() == old(self).policy_view(),
            final(self).send_ctr() == old(self).send_ctr(),
            final(self).recv_ctr() == old(self).recv_ctr(),
            !response.accepted ==> r is Err,
            r matches Err(e) ==> e is AttestationError,
            r is Err ==> final(self).chan_state() is Closed && final(self).session() is None,
            r is Ok ==> ({
                &&& response.accepted
                &&& final(self).chan_state() is Established
                &&& final(self).session() == Some(
                    session_key_of(our_dh_public@, response.dh_public@, old(self).cid()),
                )
                &&& final(self).remote_id() == Some(response.quote.enclave_data.enclave_id@)
                &&& final(self).remote_level() == Some(response.quote.security_level)
                &&& final(self).est_at() is Some
            }),
            response.accepted ==> exists|now: int|
                -10_000_000_000_000 <= now <= 10_000_000_000_000 && (r is Ok <==> spec_verify_quote(
                    &response.quote,
                    &old(self).policy_view(),
                    now,
                ) is Trusted),
    {
        if !response.accepted {
            self.state = ChannelState::Closed;
            self.session_key = None;
            let reason = match &response.reason {
                Some(s) => s.clone(),
                None => String::from_str("Rejected"),
            };
            return Err(TeeError::AttestationError(reason));
        }
        let verdict = verify_quote(&response.quote, &self.policy);
        let ghost v0 = verdict;
        let ghost now0 = choose|now: int|
            -10_000_000_000_000 <= now <= 10_000_000_000_000 && verdict_matches(
                &v0,
                &response.quote,
                &old(self).policy_view(),
                now,
            );
        match verdict {
            AttestationVerdict::Trusted { enclave_id, security_level } => {
                self.remote_enclave_id = Some(enclave_id);
                self.remote_security_level = Some(security_level);
                let session_key = derive_session_key(
                    our_dh_public,
                    response.dh_public.as_str(),
                    self.channel_id.as_str(),
                );
                self.session_key = Some(session_key);
                self.state = ChannelState::Established;
                self.established_at = Some(now_ts());
                Ok(())
            },
            _ => {
                self.state = ChannelState::Closed;
                self.session_key = None;
                Err(
                    TeeError::AttestationError(
                        String::from_str("Responder attestation failed"),
                    ),
                )
            },
        }
    }

    /// Encrypt a message: the current send sequence number is the sole
    /// per-message nonce input; the counter then advances by one.
    pub fn encrypt_message(&mut self, plaintext: &[u8]) -> (r: Result<SecureMessage, TeeError>)
        requires
            old(self).wf(),
            old(self).send_ctr() < u64::MAX,
        ensures
            final(self).wf(),
            !(old(self).chan_state() is Established) ==> ((r matches Err(e) && e is EnclaveError)
                && *final(self) == *old(self)),
            old(self).chan_state() is Established ==> ({
                let key = old(self).session().unwrap();
                &&& (r matches Ok(m) && ({
                    &&& m.channel_id@ == old(self).cid()
                    &&& m.sequence == old(self).send_ctr()
                    &&& m.ciphertext@ == hex_of(
                        xor_seq(
                            plaintext@,
                            msg_keystream(key, old(self).send_ctr(), plaintext@.len()),
                        ),
                    )
                    &&& m.mac@ == hex_of(msg_mac(key, old(self).send_ctr(), plaintext@))
                }))
                &&& final(self).send_ctr() == old(self).send_ctr() + 1
                &&& final(self).session() == old(self).session()
                &&& final(self).chan_state() == old(self).chan_state()
                &&& final(self).recv_ctr() == old(self).recv_ctr()
                &&& final(self).cid() == old(self).cid()
                &&& final(self).local_id() == old(self).local_id()
                &&& final(self).remote_id() == old(self).remote_id()
                &&& final(self).policy_view() == old(self).policy_view()
            }),
    {
        if !matches!(self.state, ChannelState::Established) {
            return Err(TeeError::EnclaveError(String::from_str("Channel not established")));
        }
        let seqno = self.send_counter;
        let (ciphertext, mac) = match &self.session_key {
            Some(key) => {
                let ks = msg_keystream_bytes(key.as_slice(), seqno, plaintext.len());
                let ct_bytes = xor_bytes(plaintext, ks.as_slice());
                let ciphertext = hex_encode(ct_bytes.as_slice());
                let mac = msg_mac_hex(key.as_slice(), seqno, plaintext);
                (ciphertext, mac)
            },
            None => {
                return Err(TeeError::EnclaveError(String::from_str("Channel not established")));
            },
        };
        self.send_counter = seqno + 1;
        let timestamp = now_ts();
        Ok(
            SecureMessage {
                channel_id: self.channel_id.clone(),
                sequence: seqno,
                ciphertext,
                mac,
                timestamp,
            },
        )
    }

    /// Decrypt a message. Replays — any sequence number below the receive
    /// counter — are rejected before anything else; the MAC is then checked
    /// over the recovered plaintext and nothing is returned unless it
    /// verifies. On success the receive counter moves past the message's
    /// sequence number, so the identical message is rejected afterwards.
    pub fn decrypt_message(&mut self, msg: &SecureMessage) -> (r: Result<Vec<u8>, TeeError>)
        requires
            old(self).wf(),
            msg.sequence < u64::MAX,
        ensures
            final(self).wf(),
            !(old(self).chan_state() is Established) ==> ((r matches Err(e) && e is EnclaveError)
                && *final(self) == *old(self)),
            old(self).chan_state() is Established ==> ({
                let key = old(self).session().unwrap();
                &&& (msg.sequence < old(self).recv_ctr() ==> ((r matches Err(e) && e matches
                    TeeError::IntegrityError(s) && s@ == "Replay detected"@) && *final(self)
                    == *old(self)))
                &&& (msg.sequence >= old(self).recv_ctr() && !is_hex_seq(msg.ciphertext@) ==> ((
                r matches Err(e) && e is SealingError) && *final(self) == *old(self)))
                &&& (msg.sequence >= old(self).recv_ctr() && is_hex_seq(msg.ciphertext@)
                    && !mac_ok_of(key, msg.sequence, msg.ciphertext@, msg.mac@) ==> ({
                    &&& (r matches Err(e) && e matches TeeError::IntegrityError(s) && s@
                        == "Message MAC mismatch"@)
                    &&& *final(self) == *old(self)
                }))
                &&& (msg.sequence >= old(self).recv_ctr() && is_hex_seq(msg.ciphertext@)
                    && mac_ok_of(key, msg.sequence, msg.ciphertext@, msg.mac@) ==> ({
                    &&& (r matches Ok(p) && p@ == recovered_of(key, msg.sequence, msg.ciphertext@))
                    &&& final(self).recv_ctr() == msg.sequence + 1
                    &&& final(self).send_ctr() == old(self).send_ctr()
                    &&& final(self).session() == old(self).session()
                    &&& final(self).chan_state() == old(self).chan_state()
                    &&& final(self).cid() == old(self).cid()
                    &&& final(self).local_id() == old(self).local_id()
                    &&& final(self).remote_id() == old(self).remote_id()
                    &&& final(self).policy_view() == old(self).policy_view()
                }))
            }),
    {
        if !matches!(self.state, ChannelState::Established) {
            return Err(TeeError::EnclaveError(String::from_str("Channel not established")));
        }
        if msg.sequence < self.recv_counter {
            return Err(TeeError::IntegrityError(String::from_str("Replay detected")));
        }
        let plaintext = match &self.session_key {
            Some(key) => {
                let ct_bytes = match hex_decode(msg.ciphertext.as_str()) {
                    Some(b) => b,
                    None => {
                        return Err(TeeError::SealingError(String::from_str("Hex decode failed")));
                    },
                };
                let ks = msg_keystream_bytes(key.as_slice(), msg.sequence, ct_bytes.len());
                let plaintext = xor_bytes(ct_bytes.as_slice(), ks.as_slice());
                let expected_mac = msg_mac_hex(key.as_slice(), msg.sequence, plaintext.as_slice());
                if msg.mac != expected_mac {
                    return Err(
                        TeeError::IntegrityError(String::from_str("Message MAC mismatch")),
                    );
                }
                plaintext
            },
            None => {
                return Err(TeeError::EnclaveError(String::from_str("Channel not established")));
            },
        };
        self.recv_counter = msg.sequence + 1;
        Ok(plaintext)
    }
}

} // verus!
