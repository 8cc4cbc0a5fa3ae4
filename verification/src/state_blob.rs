//! The state blob: the serializable representation of a whole system's state.
//!
//! The blob is the only thing that crosses the eviction boundary; everything
//! else is a projection of it. Its JSON text, content hash, lineage and the
//! passphrase seal that hibernation puts on its payload are defined here.
use vstd::prelude::*;
use vstd::utf8::*;
use vstd::slice::slice_subrange;
use crate::digest::{
    hex_bytes, hex_decode, hex_encode, hex_error_message, hex_error_text, hex_failure, hex_text, hex_valid,
    lemma_hex_roundtrip,
    lemma_hex_text_shape,
    sha256, sha256_digest,
};
use crate::json::{escaped, json_text, push_quoted, quoted, Json, JsonV};
use crate::calendar::{clock_seconds, timestamp_of, timestamp_text};

verus! {

/// Current blob format version.
pub const BLOB_VERSION: &'static str = "0.1.0";

/// Encryption envelope of a sealed blob.
#[derive(Debug, Clone, PartialEq)]
pub struct BlobSeal {
    /// Encryption algorithm (e.g. "AES-256-GCM").
    pub algorithm: String,
    /// Ciphertext (hex-encoded).
    pub ciphertext: String,
    /// Nonce/IV (hex-encoded).
    pub nonce: String,
}

/// A state blob, the single source of truth.
#[derive(Debug, Clone, PartialEq)]
pub struct Blob {
    /// Format version (semver).
    pub version: String,
    /// Schema URI this blob conforms to.
    pub schema: String,
    /// Creation timestamp (ISO 8601).
    pub timestamp: String,
    /// Application-specific state.
    pub payload: Json,
    /// Optional seal (encrypted at rest).
    pub seal: Option<BlobSeal>,
    /// Hash of the parent blob (for versioning).
    pub parent: Option<String>,
}

/// Errors that can occur when working with blobs.
#[derive(Debug, Clone, PartialEq)]
pub enum BlobError {
    Serialization(String),
    Deserialization(String),
    Validation(String),
    Seal(String),
}

/// The value of a seal.
pub struct SealV {
    pub algorithm: Seq<char>,
    pub ciphertext: Seq<char>,
    pub nonce: Seq<char>,
}

/// The value of a blob.
pub struct BlobV {
    pub version: Seq<char>,
    pub schema: Seq<char>,
    pub timestamp: Seq<char>,
    pub payload: JsonV,
    pub seal: Option<SealV>,
    pub parent: Option<Seq<char>>,
}

impl DeepView for BlobSeal {
    type V = SealV;

    open spec fn deep_view(&self) -> SealV {
        SealV { algorithm: self.algorithm@, ciphertext: self.ciphertext@, nonce: self.nonce@ }
    }
}

/// The view of an optional string.
pub open spec fn opt_text(o: Option<String>) -> Option<Seq<char>> {
    match o {
        Some(s) => Some(s@),
        None => None,
    }
}

impl DeepView for Blob {
    type V = BlobV;

    open spec fn deep_view(&self) -> BlobV {
        BlobV {
            version: self.version@,
            schema: self.schema@,
            timestamp: self.timestamp@,
            payload: self.payload.deep_view(),
            seal: match self.seal {
                Some(s) => Some(s.deep_view()),
                None => None,
            },
            parent: opt_text(self.parent),
        }
    }
}

// ---------------------------------------------------------------------------
// JSON text, bytes and hash
// ---------------------------------------------------------------------------

/// An optional string in JSON: `null` or a string literal.
pub open spec fn opt_text_json(o: Option<Seq<char>>) -> Seq<char> {
    match o {
        None => "null"@,
        Some(s) => quoted(s),
    }
}

/// A seal in JSON: `null`, or an object with its three members in order.
pub open spec fn seal_json(o: Option<SealV>) -> Seq<char> {
    match o {
        None => "null"@,
        Some(s) => "{\"algorithm\":"@ + quoted(s.algorithm) + ",\"ciphertext\":"@ + quoted(
            s.ciphertext,
        ) + ",\"nonce\":"@ + quoted(s.nonce) + "}"@,
    }
}

/// A blob in compact JSON: one object with its members in declaration order.
pub open spec fn blob_text(b: BlobV) -> Seq<char> {
    "{\"version\":"@ + quoted(b.version) + ",\"schema\":"@ + quoted(b.schema) + ",\"timestamp\":"@
        + quoted(b.timestamp) + ",\"payload\":"@ + json_text(b.payload) + ",\"seal\":"@ + seal_json(
        b.seal,
    ) + ",\"parent\":"@ + opt_text_json(b.parent) + "}"@
}

/// The serialized form of a blob: the UTF-8 bytes of its JSON text.
pub open spec fn blob_bytes(b: BlobV) -> Seq<u8> {
    encode_utf8(blob_text(b))
}

/// The content hash of a blob: SHA-256 of its bytes, in lower-case hex.
pub open spec fn blob_hash(b: BlobV) -> Seq<char> {
    hex_text(sha256(blob_bytes(b)))
}

/// The blob that descends from `p` with payload `payload`, created at
/// clock reading `now`.
pub open spec fn child_view(p: BlobV, payload: JsonV, now: u64) -> BlobV {
    BlobV {
        version: BLOB_VERSION@,
        schema: p.schema,
        timestamp: timestamp_text(now),
        payload,
        seal: None,
        parent: Some(blob_hash(p)),
    }
}

/// Text that some clock reading gives.
pub open spec fn is_timestamp(t: Seq<char>) -> bool {
    exists|secs: u64| t == timestamp_text(secs)
}

/// The message that `BlobError` displays.
pub open spec fn blob_error_text(e: BlobError) -> Seq<char> {
    match e {
        BlobError::Serialization(m) => "serialization failed: "@ + m@,
        BlobError::Deserialization(m) => "deserialization failed: "@ + m@,
        BlobError::Validation(m) => "validation failed: "@ + m@,
        BlobError::Seal(m) => "seal error: "@ + m@,
    }
}

impl BlobError {
    /// The message of this error.
    pub fn message(&self) -> (r: String)
        ensures
            r@ == blob_error_text(*self),
    {
        let mut out = String::new();
        match self {
            BlobError::Serialization(m) => {
                out.append("serialization failed: ");
                out.append(m.as_str());
            },
            BlobError::Deserialization(m) => {
                out.append("deserialization failed: ");
                out.append(m.as_str());
            },
            BlobError::Validation(m) => {
                out.append("validation failed: ");
                out.append(m.as_str());
            },
            BlobError::Seal(m) => {
                out.append("seal error: ");
                out.append(m.as_str());
            },
        }
        out
    }
}

impl BlobSeal {
    /// A copy of this seal.
    pub fn duplicate(&self) -> (r: BlobSeal)
        ensures
            r.deep_view() == self.deep_view(),
    {
        BlobSeal {
            algorithm: self.algorithm.clone(),
            ciphertext: self.ciphertext.clone(),
            nonce: self.nonce.clone(),
        }
    }

    fn write_text(&self, out: &mut String)
        ensures
            final(out)@ == old(out)@ + seal_json(Some(self.deep_view())),
    {
        let ghost start = out@;
        out.append("{\"algorithm\":");
        push_quoted(out, self.algorithm.as_str());
        out.append(",\"ciphertext\":");
        push_quoted(out, self.ciphertext.as_str());
        out.append(",\"nonce\":");
        push_quoted(out, self.nonce.as_str());
        out.append("}");
        assert(out@ =~= start + seal_json(Some(self.deep_view())));
    }
}

fn copy_opt_string(o: &Option<String>) -> (r: Option<String>)
    ensures
        opt_text(r) == opt_text(*o),
{
    match o {
        Some(s) => Some(s.clone()),
        None => None,
    }
}

impl Blob {
    /// A blob created at the given clock reading (seconds since the epoch),
    /// stamped with its ISO 8601 UTC date-time.
    pub fn new_at(schema: &str, payload: Json, secs: u64) -> (r: Blob)
        ensures
            r.version@ == BLOB_VERSION@,
            r.schema@ == schema@,
            r.timestamp@ == timestamp_text(secs),
            r.payload == payload,
            r.seal is None,
            r.parent is None,
    {
        let timestamp = timestamp_of(secs);
        Blob {
            version: String::from_str(BLOB_VERSION),
            schema: String::from_str(schema),
            timestamp,
            payload,
            seal: None,
            parent: None,
        }
    }

    /// Create a new state blob, stamped with the current time.
    pub fn new(schema: &str, payload: Json) -> (r: Blob)
        ensures
            r.version@ == BLOB_VERSION@,
            r.schema@ == schema@,
            is_timestamp(r.timestamp@),
            r.payload == payload,
            r.seal is None,
            r.parent is None,
    {
        Blob::new_at(schema, payload, clock_seconds())
    }

    /// A copy of this blob.
    pub fn duplicate(&self) -> (r: Blob)
        ensures
            r.deep_view() == self.deep_view(),
    {
        let seal = match &self.seal {
            Some(s) => Some(s.duplicate()),
            None => None,
        };
        Blob {
            version: self.version.clone(),
            schema: self.schema.clone(),
            timestamp: self.timestamp.clone(),
            payload: self.payload.duplicate(),
            seal,
            parent: copy_opt_string(&self.parent),
        }
    }

    /// The compact JSON text of this blob.
    pub fn to_json_text(&self) -> (r: String)
        ensures
            r@ == blob_text(self.deep_view()),
    {
        let mut out = String::new();
        let ghost v = self.deep_view();
        out.append("{\"version\":");
        push_quoted(&mut out, self.version.as_str());
        out.append(",\"schema\":");
        push_quoted(&mut out, self.schema.as_str());
        out.append(",\"timestamp\":");
        push_quoted(&mut out, self.timestamp.as_str());
        out.append(",\"payload\":");
        self.payload.write_text(&mut out);
        out.append(",\"seal\":");
        match &self.seal {
            Some(s) => s.write_text(&mut out),
            None => out.append("null"),
        }
        out.append(",\"parent\":");
        match &self.parent {
            Some(p) => push_quoted(&mut out, p.as_str()),
            None => out.append("null"),
        }
        out.append("}");
        assert(Seq::<char>::empty() + "{\"version\":"@ =~= "{\"version\":"@);
        out
    }

    /// Serialize the blob to JSON bytes.
    pub fn serialize(&self) -> (r: Result<Vec<u8>, BlobError>)
        ensures
            r is Ok,
            r->Ok_0@ == blob_bytes(self.deep_view()),
    {
        let text = self.to_json_text();
        Ok(text.as_str().as_bytes_vec())
    }

    /// Compute the content hash of this blob (SHA-256, hex-encoded).
    pub fn hash(&self) -> (r: Result<String, BlobError>)
        ensures
            r is Ok,
            r->Ok_0@ == blob_hash(self.deep_view()),
            r->Ok_0@.len() == 64,
    {
        let bytes = match self.serialize() {
            Ok(b) => b,
            Err(e) => {
                return Err(e);
            },
        };
        let digest = sha256_digest(bytes.as_slice());
        proof {
            lemma_hex_text_shape(digest@);
        }
        Ok(hex_encode(digest.as_slice()))
    }

    /// Validate the blob against basic structural rules: a version and a
    /// schema are required, the version checked first.
    pub fn validate(&self) -> (r: Result<(), BlobError>)
        ensures
            r is Ok <==> (self.version@.len() > 0 && self.schema@.len() > 0),
            self.version@.len() == 0 ==> (r matches Err(BlobError::Validation(m)) && m@
                == "version is required"@),
            self.version@.len() > 0 && self.schema@.len() == 0 ==> (r matches Err(
                BlobError::Validation(m),
            ) && m@ == "schema is required"@),
    {
        if self.version.as_str().is_empty() {
            return Err(BlobError::Validation(String::from_str("version is required")));
        }
        if self.schema.as_str().is_empty() {
            return Err(BlobError::Validation(String::from_str("schema is required")));
        }
        Ok(())
    }

    /// A new blob that descends from this one, created at clock reading
    /// `now`: same schema, the given payload, and this blob's hash as its
    /// parent.
    pub fn child_at(&self, payload: Json, now: u64) -> (r: Result<Blob, BlobError>)
        ensures
            r is Ok,
            r->Ok_0.deep_view() == child_view(self.deep_view(), payload.deep_view(), now),
            r->Ok_0.payload == payload,
    {
        let mut blob = Blob::new_at(self.schema.as_str(), payload, now);
        let h = match self.hash() {
            Ok(h) => h,
            Err(e) => {
                return Err(e);
            },
        };
        blob.parent = Some(h);
        Ok(blob)
    }

    /// Create a new blob that descends from this one, stamped with the
    /// current time: same schema, the given payload, and this blob's hash as
    /// its parent.
    pub fn child(&self, payload: Json) -> (r: Result<Blob, BlobError>)
        ensures
            r is Ok,
            exists|now: u64| r->Ok_0.deep_view() == child_view(self.deep_view(), payload.deep_view(), now),
            r->Ok_0.version@ == BLOB_VERSION@,
            r->Ok_0.schema@ == self.schema@,
            is_timestamp(r->Ok_0.timestamp@),
            r->Ok_0.payload == payload,
            r->Ok_0.seal is None,
            opt_text(r->Ok_0.parent) == Some(blob_hash(self.deep_view())),
    {
        let now = clock_seconds();
        self.child_at(payload, now)
    }
}

// ---------------------------------------------------------------------------
// Hibernation: the passphrase seal on the payload
// ---------------------------------------------------------------------------

/// The 32-byte key derived from a passphrase: SHA-256 of its UTF-8 bytes.
pub open spec fn seal_key(pass: Seq<char>) -> Seq<u8> {
    sha256(encode_utf8(pass))
}

/// Each byte combined by exclusive or with the key, the key repeated.
pub open spec fn xor_with_key(d: Seq<u8>, k: Seq<u8>) -> Seq<u8> {
    Seq::new(d.len(), |i: int| d[i] ^ k[i % (k.len() as int)])
}

/// The seal that hibernation writes for payload bytes `plain`.
pub open spec fn seal_of(plain: Seq<u8>, pass: Seq<char>) -> SealV {
    SealV {
        algorithm: "XOR-REF"@,
        ciphertext: hex_text(xor_with_key(plain, seal_key(pass))),
        nonce: hex_text(seal_key(pass).take(12)),
    }
}

/// A blob as hibernation leaves it: payload `null` and the payload's JSON
/// bytes sealed with the passphrase; every other member unchanged.
pub open spec fn sealed_view(b: BlobV, pass: Seq<char>) -> BlobV {
    BlobV {
        payload: JsonV::Null,
        seal: Some(seal_of(encode_utf8(json_text(b.payload)), pass)),
        ..b
    }
}

/// What opening a seal with a passphrase yields: the hex-decoded ciphertext
/// combined with the key, or `None` when the ciphertext is not hex text.
pub open spec fn opened(s: SealV, pass: Seq<char>) -> Option<Seq<u8>> {
    let c = encode_utf8(s.ciphertext);
    if hex_valid(c) {
        Some(xor_with_key(hex_bytes(c), seal_key(pass)))
    } else {
        None
    }
}

/// Derive a 32-byte key from a passphrase using SHA-256.
fn derive_key(passphrase: &str) -> (r: Vec<u8>)
    ensures
        r@ == seal_key(passphrase@),
        r@.len() == 32,
{
    sha256_digest(passphrase.as_bytes())
}

fn xor_bytes(d: &[u8], k: &[u8]) -> (r: Vec<u8>)
    requires
        k@.len() > 0,
    ensures
        r@ == xor_with_key(d@, k@),
{
    let mut r: Vec<u8> = Vec::new();
    let n = d.len();
    let m = k.len();
    for i in 0..n
        invariant
            n == d@.len(),
            m == k@.len(),
            m > 0,
            r@ =~= xor_with_key(d@, k@).take(i as int),
    {
        r.push(d[i] ^ k[i % m]);
    }
    assert(xor_with_key(d@, k@).take(n as int) =~= xor_with_key(d@, k@));
    r
}

impl BlobSeal {
    /// Decrypt this seal's ciphertext with a passphrase: hex-decode it and
    /// combine it with the passphrase's key. A ciphertext that is not hex
    /// text gives `BlobError::Seal` with the decoder's message.
    pub fn open(&self, passphrase: &str) -> (r: Result<Vec<u8>, BlobError>)
        ensures
            r is Ok <==> opened(self.deep_view(), passphrase@) is Some,
            r matches Ok(b) ==> Some(b@) == opened(self.deep_view(), passphrase@),
            r matches Err(e) ==> e matches BlobError::Seal(m) && m@ == hex_error_text(
                hex_failure(encode_utf8(self.ciphertext@))->0,
            ),
    {
        let key = derive_key(passphrase);
        let ciphertext = match hex_decode(self.ciphertext.as_str().as_bytes()) {
            Ok(c) => c,
            Err(e) => {
                return Err(BlobError::Seal(hex_error_message(e)));
            },
        };
        Ok(xor_bytes(ciphertext.as_slice(), key.as_slice()))
    }
}

impl Blob {
    /// This blob as hibernation stores it: the payload's JSON bytes sealed
    /// with the passphrase (a repeating-key XOR with the SHA-256 key of the
    /// passphrase, hex-encoded; the first 12 key bytes as the nonce) and the
    /// payload replaced by `null`.
    pub fn sealed(&self, passphrase: &str) -> (r: Blob)
        ensures
            r.deep_view() == sealed_view(self.deep_view(), passphrase@),
            seal_key(passphrase@).len() == 32,
    {
        let text = self.payload.to_text();
        let plain = text.as_str().as_bytes();
        let key = derive_key(passphrase);
        let ciphertext = xor_bytes(plain, key.as_slice());
        let nonce_key = slice_subrange(key.as_slice(), 0, 12);
        assert(nonce_key@ =~= key@.take(12));
        let seal = BlobSeal {
            algorithm: String::from_str("XOR-REF"),
            ciphertext: hex_encode(ciphertext.as_slice()),
            nonce: hex_encode(nonce_key),
        };
        Blob {
            version: self.version.clone(),
            schema: self.schema.clone(),
            timestamp: self.timestamp.clone(),
            payload: Json::Null,
            seal: Some(seal),
            parent: copy_opt_string(&self.parent),
        }
    }

    /// Hibernate: seal the payload with the passphrase and serialize.
    pub fn hibernate(&self, passphrase: &str) -> (r: Result<Vec<u8>, BlobError>)
        ensures
            r is Ok,
            r->Ok_0@ == blob_bytes(sealed_view(self.deep_view(), passphrase@)),
    {
        let sealed = self.sealed(passphrase);
        sealed.serialize()
    }

    /// Removes the seal and opens it with the passphrase, giving the payload's
    /// JSON bytes; `None` when the blob was not sealed.
    pub fn unseal(&mut self, passphrase: &str) -> (r: Result<Option<Vec<u8>>, BlobError>)
        ensures
            final(self).deep_view() == (BlobV { seal: None, ..old(self).deep_view() }),
            old(self).seal is None ==> r matches Ok(None),
            old(self).seal matches Some(s) ==> {
                &&& r is Ok <==> opened(s.deep_view(), passphrase@) is Some
                &&& r matches Ok(o) ==> o matches Some(b) && Some(b@) == opened(
                    s.deep_view(),
                    passphrase@,
                )
                &&& r matches Err(e) ==> e is Seal
            },
    {
        match self.seal.take() {
            None => Ok(None),
            Some(s) => match s.open(passphrase) {
                Ok(b) => Ok(Some(b)),
                Err(e) => Err(e),
            },
        }
    }
}

/// Law: opening the seal that hibernation wrote, with the same passphrase,
/// gives back exactly the payload's JSON bytes, and putting the payload back
/// in place of `null` (dropping the seal) gives back the blob as it was.
/// The key is a SHA-256 digest, which is never empty.
pub proof fn law_unseal_inverts_seal(b: BlobV, pass: Seq<char>)
    requires
        seal_key(pass).len() > 0,
    ensures
        sealed_view(b, pass).seal matches Some(s) && opened(s, pass) == Some(
            encode_utf8(json_text(b.payload)),
        ),
        (BlobV { payload: b.payload, seal: None, ..sealed_view(b, pass) }) == (BlobV {
            seal: None,
            ..b
        }),
{
    let plain = encode_utf8(json_text(b.payload));
    let key = seal_key(pass);
    let c = xor_with_key(plain, key);
    lemma_hex_roundtrip(c);
    lemma_xor_involution(plain, key);
}

/// Law: combining with the same non-empty key twice gives the bytes back.
pub proof fn lemma_xor_involution(d: Seq<u8>, k: Seq<u8>)
    requires
        k.len() > 0,
    ensures
        xor_with_key(xor_with_key(d, k), k) == d,
{
    let once = xor_with_key(d, k);
    let twice = xor_with_key(once, k);
    assert forall|i: int| 0 <= i < d.len() implies #[trigger] twice[i] == d[i] by {
        let a = d[i];
        let b = k[i % (k.len() as int)];
        assert(once[i] == a ^ b);
        assert((a ^ b) ^ b == a) by (bit_vector);
    }
    assert(twice =~= d);
}

/// Law: a blob's JSON text, which its bytes and its hash are made from,
/// ends with its lineage: the member `"parent"` with the string literal of
/// the parent's hash when it has one, `null` when it has none. So a blob
/// with a parent never serializes as one without.
pub proof fn law_blob_text_keeps_parent(b: BlobV)
    ensures
        b.parent matches Some(h) ==> (",\"parent\":\""@ + escaped(h) + "\"}"@).is_suffix_of(blob_text(b)),
        b.parent is None ==> (",\"parent\":null}"@).is_suffix_of(blob_text(b)),
        b.parent is Some ==> blob_text(b)[blob_text(b).len() - 2] == '"',
        b.parent is None ==> blob_text(b)[blob_text(b).len() - 2] == 'l',
{
    reveal_strlit(",\"parent\":");
    reveal_strlit(",\"parent\":\"");
    reveal_strlit(",\"parent\":null}");
    reveal_strlit("\"");
    reveal_strlit("\"}");
    reveal_strlit("}");
    reveal_strlit("null");
    let t = blob_text(b);
    let pre = "{\"version\":"@ + quoted(b.version) + ",\"schema\":"@ + quoted(b.schema) + ",\"timestamp\":"@
        + quoted(b.timestamp) + ",\"payload\":"@ + json_text(b.payload) + ",\"seal\":"@ + seal_json(b.seal);
    let suf = ",\"parent\":"@ + opt_text_json(b.parent) + "}"@;
    assert(t =~= pre + suf);
    match b.parent {
        Some(h) => {
            let want = ",\"parent\":\""@ + escaped(h) + "\"}"@;
            assert(suf =~= want);
            assert(t.subrange(t.len() - want.len(), t.len() as int) =~= want);
            assert(t[t.len() - 2] == want[want.len() - 2]);
        },
        None => {
            let want = ",\"parent\":null}"@;
            assert(suf =~= want);
            assert(t.subrange(t.len() - want.len(), t.len() as int) =~= want);
            assert(t[t.len() - 2] == want[want.len() - 2]);
        },
    }
}

/// Law: sealing combines every payload byte with the passphrase's key,
/// the key repeated over the whole payload: decoded, byte `i` of the
/// ciphertext is byte `i` of the payload's JSON text XOR key byte
/// `i mod` the key's length.
pub proof fn law_seal_combines_every_byte(b: BlobV, pass: Seq<char>, i: int)
    requires
        0 <= i < encode_utf8(json_text(b.payload)).len(),
    ensures
        ({
            let plain = encode_utf8(json_text(b.payload));
            let key = seal_key(pass);
            let c = hex_bytes(encode_utf8(sealed_view(b, pass).seal->0.ciphertext));
            &&& c.len() == plain.len()
            &&& c[i] == plain[i] ^ key[i % (key.len() as int)]
        }),
{
    let plain = encode_utf8(json_text(b.payload));
    let key = seal_key(pass);
    lemma_hex_roundtrip(xor_with_key(plain, key));
}

} // verus!
