//! Service bus: resolves endpoints and dispatches calls.
//!
//! Endpoint resolution goes local → mesh → cloud; every call is authorized by
//! a capability token whose scope must name the operation.
use vstd::prelude::*;
use vstd::utf8::*;
use crate::digest::{hex_encode, hex_text, lemma_hex_text_shape, sha256, sha256_digest};
use crate::first::{is_first_where, lemma_first_where_exists, lemma_first_where_unique};
use crate::json::{Json, JsonV};
use crate::service_bus::{
    is_registered, service_error_text, upsert_manifest, law_registered_after_register, ManifestV, Service,
    ServiceManifest, ServiceRegistry, ServiceSlot,
};
use crate::state_blob::{blob_bytes, Blob, BlobV};
use crate::calendar::{clock_seconds, timestamp_of, timestamp_text};
use crate::json::json_text;
use crate::text::{debug_list_text, debug_opt_text, push_debug_list, push_debug_opt, str_eq, str_lt, text_lt, texts};

verus! {

/// Endpoint type for service resolution.
#[derive(Debug, Clone, PartialEq, Eq, Hash)]
pub enum Endpoint {
    /// Same-process service (function call).
    Local,
    /// Mesh peer.
    Mesh { peer_id: String },
    /// Cloud service.
    Cloud { url: String },
}

/// The value of an endpoint.
pub enum EndpointV {
    Local,
    Mesh(Seq<char>),
    Cloud(Seq<char>),
}

impl DeepView for Endpoint {
    type V = EndpointV;

    open spec fn deep_view(&self) -> EndpointV {
        match self {
            Endpoint::Local => EndpointV::Local,
            Endpoint::Mesh { peer_id } => EndpointV::Mesh(peer_id@),
            Endpoint::Cloud { url } => EndpointV::Cloud(url@),
        }
    }
}

/// Capability token for authorizing service calls. Each token restricts
/// (never expands) its issuer's scope.
#[derive(Debug, Clone)]
pub struct CapabilityToken {
    /// Token id: `sha256:` and the hex SHA-256 of the token content.
    pub id: String,
    /// Entity that issued this token.
    pub issuer: String,
    /// Service this token grants access to.
    pub subject: String,
    /// Allowed operations: ["invoke"], ["invoke", "stream"].
    pub scope: Vec<String>,
    /// Maximum number of invocations (None = unlimited). The bus keeps no
    /// count across calls: it refuses every call on a token whose limit is 0.
    pub max_invocations: Option<u64>,
    /// Maximum bytes that can be transferred (None = unlimited): the bus
    /// refuses a request whose blob and input bytes exceed it.
    pub max_bytes: Option<u64>,
    /// Expiration timestamp (ISO 8601, UTC, as `Blob` timestamps are
    /// written); the bus refuses the token from that instant on.
    pub expires: Option<String>,
    /// Signature over the above fields.
    pub signature: String,
}

/// A streaming response chunk.
#[derive(Debug, Clone)]
pub struct StreamChunk {
    /// The current state blob (may be partial).
    pub blob: Blob,
    /// Output data for this chunk.
    pub output: Json,
    /// True when the stream is complete.
    pub done: bool,
}

/// Errors from the service bus.
#[derive(Debug, Clone, PartialEq)]
pub enum BusError {
    NotFound(String),
    CapabilityRejected(String),
    InvocationLimit,
    ByteLimit,
    TokenExpired,
    Service(String),
    Network(String),
}

/// The message that a `BusError` displays.
pub open spec fn bus_error_text(e: BusError) -> Seq<char> {
    match e {
        BusError::NotFound(m) => "service not found: "@ + m@,
        BusError::CapabilityRejected(m) => "capability rejected: "@ + m@,
        BusError::InvocationLimit => "invocation limit exceeded"@,
        BusError::ByteLimit => "byte limit exceeded"@,
        BusError::TokenExpired => "token expired"@,
        BusError::Service(m) => "service error: "@ + m@,
        BusError::Network(m) => "network error: "@ + m@,
    }
}

impl BusError {
    /// The message of this error.
    pub fn message(&self) -> (r: String)
        ensures
            r@ == bus_error_text(*self),
    {
        match self {
            BusError::NotFound(m) => String::from_str("service not found: ").concat(m.as_str()),
            BusError::CapabilityRejected(m) => String::from_str("capability rejected: ").concat(m.as_str()),
            BusError::InvocationLimit => String::from_str("invocation limit exceeded"),
            BusError::ByteLimit => String::from_str("byte limit exceeded"),
            BusError::TokenExpired => String::from_str("token expired"),
            BusError::Service(m) => String::from_str("service error: ").concat(m.as_str()),
            BusError::Network(m) => String::from_str("network error: ").concat(m.as_str()),
        }
    }
}

// ---------------------------------------------------------------------------
// Capability tokens
// ---------------------------------------------------------------------------

/// The content a token id is hashed from:
/// `issuer:subject:["scope", ...]:max_invocations:max_bytes`, the last three
/// as `Debug` writes them.
pub open spec fn token_content(
    issuer: Seq<char>,
    subject: Seq<char>,
    scope: Seq<Seq<char>>,
    max_invocations: Option<u64>,
    max_bytes: Option<u64>,
) -> Seq<char> {
    issuer + ":"@ + subject + ":"@ + debug_list_text(scope) + ":"@ + debug_opt_text(max_invocations)
        + ":"@ + debug_opt_text(max_bytes)
}

/// The hex SHA-256 of a token's content.
pub open spec fn token_hash(
    issuer: Seq<char>,
    subject: Seq<char>,
    scope: Seq<Seq<char>>,
    max_invocations: Option<u64>,
    max_bytes: Option<u64>,
) -> Seq<char> {
    hex_text(sha256(encode_utf8(token_content(issuer, subject, scope, max_invocations, max_bytes))))
}

/// The message of a token whose scope lacks an operation.
pub open spec fn scope_error_text(operation: Seq<char>, scope: Seq<Seq<char>>) -> Seq<char> {
    operation + " not in scope "@ + debug_list_text(scope)
}

impl CapabilityToken {
    /// Issue a new capability token (unsigned): its id is `sha256:` and the
    /// hash of its content.
    pub fn issue(
        issuer: &str,
        subject: &str,
        scope: Vec<String>,
        max_invocations: Option<u64>,
        max_bytes: Option<u64>,
    ) -> (r: Self)
        ensures
            r.issuer@ == issuer@,
            r.subject@ == subject@,
            r.scope@ == scope@,
            r.max_invocations == max_invocations,
            r.max_bytes == max_bytes,
            r.expires is None,
            r.signature@ == "unsigned"@,
            r.id@ == "sha256:"@ + token_hash(
                issuer@,
                subject@,
                texts(scope@),
                max_invocations,
                max_bytes,
            ),
            r.id@.len() == 71,
    {
        let mut token = CapabilityToken {
            id: String::new(),
            issuer: String::from_str(issuer),
            subject: String::from_str(subject),
            scope,
            max_invocations,
            max_bytes,
            expires: None,
            signature: String::from_str("unsigned"),
        };
        let h = token.hash_content();
        token.id = String::from_str("sha256:").concat(h.as_str());
        proof {
            reveal_strlit("sha256:");
        }
        token
    }

    fn hash_content(&self) -> (r: String)
        ensures
            r@ == token_hash(
                self.issuer@,
                self.subject@,
                texts(self.scope@),
                self.max_invocations,
                self.max_bytes,
            ),
            r@.len() == 64,
    {
        let mut content = String::new();
        content.append(self.issuer.as_str());
        content.append(":");
        content.append(self.subject.as_str());
        content.append(":");
        push_debug_list(&mut content, &self.scope);
        content.append(":");
        push_debug_opt(&mut content, self.max_invocations);
        content.append(":");
        push_debug_opt(&mut content, self.max_bytes);
        assert(content@ =~= token_content(
            self.issuer@,
            self.subject@,
            texts(self.scope@),
            self.max_invocations,
            self.max_bytes,
        ));
        let digest = sha256_digest(content.as_str().as_bytes());
        proof {
            lemma_hex_text_shape(digest@);
        }
        hex_encode(digest.as_slice())
    }
}

/// Whether a list of strings holds `s`.
fn contains_text(v: &Vec<String>, s: &str) -> (r: bool)
    ensures
        r == texts(v@).contains(s@),
{
    let n = v.len();
    let mut i: usize = 0;
    while i < n
        invariant
            n == v@.len(),
            i <= n,
            forall|j: int| 0 <= j < i ==> #[trigger] texts(v@)[j] != s@,
        decreases n - i,
    {
        if str_eq(v[i].as_str(), s) {
            assert(texts(v@)[i as int] == s@);
            return true;
        }
        i = i + 1;
    }
    false
}

// ---------------------------------------------------------------------------
// Endpoint tables
// ---------------------------------------------------------------------------

/// `i` is the first entry with key `k`.
pub open spec fn is_first_entry<V>(es: Seq<(Seq<char>, V)>, k: Seq<char>, i: int) -> bool {
    is_first_where(es, |e: (Seq<char>, V)| e.0 == k, i)
}

/// Whether some entry has key `k`.
pub open spec fn has_entry<V>(es: Seq<(Seq<char>, V)>, k: Seq<char>) -> bool {
    exists|i: int| 0 <= i < es.len() && #[trigger] es[i].0 == k
}

/// The entries after setting key `k` to `v`: an existing key keeps its place
/// and takes the new value, a new key is added at the end.
pub open spec fn upsert_entry<V>(es: Seq<(Seq<char>, V)>, k: Seq<char>, v: V) -> Seq<(Seq<char>, V)> {
    if has_entry(es, k) {
        es.update(choose|i: int| is_first_entry(es, k, i), (k, v))
    } else {
        es.push((k, v))
    }
}

/// The value of the first entry with key `k`.
pub open spec fn entry_value<V>(es: Seq<(Seq<char>, V)>, k: Seq<char>) -> Option<V> {
    if has_entry(es, k) {
        Some(es[choose|i: int| is_first_entry(es, k, i)].1)
    } else {
        None
    }
}

/// `i` is the first mesh peer that lists service `name`.
pub open spec fn is_first_peer(mesh: Seq<(Seq<char>, Seq<Seq<char>>)>, name: Seq<char>, i: int) -> bool {
    is_first_where(mesh, |e: (Seq<char>, Seq<Seq<char>>)| e.1.contains(name), i)
}

/// The first mesh peer that lists service `name`.
pub open spec fn peer_for(mesh: Seq<(Seq<char>, Seq<Seq<char>>)>, name: Seq<char>) -> Option<Seq<char>> {
    if exists|i: int| is_first_peer(mesh, name, i) {
        Some(mesh[choose|i: int| is_first_peer(mesh, name, i)].0)
    } else {
        None
    }
}

/// Where a service is found: a local service first, then the first mesh
/// peer that lists it, then a cloud endpoint; `None` when nowhere.
pub open spec fn resolve_spec(
    local: Seq<ManifestV>,
    mesh: Seq<(Seq<char>, Seq<Seq<char>>)>,
    cloud: Seq<(Seq<char>, Seq<char>)>,
    name: Seq<char>,
) -> Option<EndpointV> {
    if is_registered(local, name) {
        Some(EndpointV::Local)
    } else if peer_for(mesh, name) is Some {
        Some(EndpointV::Mesh(peer_for(mesh, name)->0))
    } else if entry_value(cloud, name) is Some {
        Some(EndpointV::Cloud(entry_value(cloud, name)->0))
    } else {
        None
    }
}

proof fn lemma_first_entry_exists<V>(es: Seq<(Seq<char>, V)>, k: Seq<char>, j: int)
    requires
        0 <= j < es.len(),
        es[j].0 == k,
    ensures
        exists|i: int| is_first_entry(es, k, i),
{
    let p = |e: (Seq<char>, V)| e.0 == k;
    lemma_first_where_exists(es, p, j);
    let i = choose|i: int| is_first_where(es, p, i);
    assert(is_first_entry(es, k, i));
}

proof fn lemma_first_entry_unique<V>(es: Seq<(Seq<char>, V)>, k: Seq<char>, i: int)
    requires
        is_first_entry(es, k, i),
    ensures
        has_entry(es, k),
        (choose|x: int| is_first_entry(es, k, x)) == i,
{
    assert(es[i].0 == k);
    let c = choose|x: int| is_first_entry(es, k, x);
    lemma_first_where_unique(es, |e: (Seq<char>, V)| e.0 == k, i, c);
}

/// Index of the first entry with key `k`, or the length when there is none.
fn find_key_index<V>(es: &Vec<(String, V)>, k: &str) -> (r: usize)
    ensures
        r <= es@.len(),
        forall|j: int| 0 <= j < r ==> (#[trigger] es@[j]).0@ != k@,
        r < es@.len() ==> es@[r as int].0@ == k@,
{
    let n = es.len();
    let mut i: usize = 0;
    while i < n
        invariant
            n == es@.len(),
            i <= n,
            forall|j: int| 0 <= j < i ==> (#[trigger] es@[j]).0@ != k@,
        decreases n - i,
    {
        if str_eq(es[i].0.as_str(), k) {
            return i;
        }
        i = i + 1;
    }
    n
}

/// The view of the mesh table.
pub open spec fn mesh_view(v: Seq<(String, Vec<String>)>) -> Seq<(Seq<char>, Seq<Seq<char>>)> {
    Seq::new(v.len(), |i: int| (v[i].0@, texts(v[i].1@)))
}

/// The view of the cloud table.
pub open spec fn cloud_view(v: Seq<(String, String)>) -> Seq<(Seq<char>, Seq<char>)> {
    Seq::new(v.len(), |i: int| (v[i].0@, v[i].1@))
}

/// The bytes a request carries: the blob's serialized bytes and the
/// input's JSON text.
pub open spec fn request_bytes(blob: BlobV, input: JsonV) -> int {
    (blob_bytes(blob).len() + encode_utf8(json_text(input)).len()) as int
}

/// Whether a token has expired at clock reading `now`: its expiry, an ISO
/// 8601 UTC text, does not sort after the reading's own text. Texts of that
/// form sort as the instants they name.
pub open spec fn token_expired(t: CapabilityToken, now: u64) -> bool {
    t.expires matches Some(e) && !text_lt(timestamp_text(now), e@)
}

/// Whether a token, its expiry aside, authorizes `op` on a request of
/// `bytes` bytes: `op` is in its scope, its invocation limit is not 0, and
/// the request is within its byte limit.
pub open spec fn token_allows(t: CapabilityToken, op: Seq<char>, bytes: int) -> bool {
    &&& texts(t.scope@).contains(op)
    &&& t.max_invocations != Some(0u64)
    &&& (t.max_bytes matches Some(m) ==> bytes <= m)
}

/// `e` is the error a token is refused with, its checks taken in turn:
/// expiry, scope, invocation limit, byte limit.
pub open spec fn is_token_refusal(t: CapabilityToken, op: Seq<char>, bytes: int, expired: bool, e: BusError) -> bool {
    if expired {
        e is TokenExpired
    } else if !texts(t.scope@).contains(op) {
        e matches BusError::CapabilityRejected(m) && m@ == scope_error_text(op, texts(t.scope@))
    } else if t.max_invocations == Some(0u64) {
        e is InvocationLimit
    } else {
        e is ByteLimit
    }
}

/// The Service Bus: resolves and dispatches service calls.
pub struct ServiceBus {
    local: ServiceRegistry,
    mesh: Vec<(String, Vec<String>)>,
    cloud: Vec<(String, String)>,
}

/// The message of a call that could not be carried to a remote endpoint.
pub open spec fn remote_error_text(kind: Seq<char>, target: Seq<char>) -> Seq<char> {
    kind + " invocation to "@ + target + " not yet implemented"@
}

impl ServiceBus {
    /// The manifests of the local services.
    pub closed spec fn local_view(&self) -> Seq<ManifestV> {
        self.local.manifests()
    }

    /// The slot of the local service registered under name `n`, if any.
    pub closed spec fn local_slot(&self, n: Seq<char>) -> Option<ServiceSlot> {
        self.local.slot_for(n)
    }

    /// The mesh peers and the services each lists.
    pub closed spec fn mesh_view(&self) -> Seq<(Seq<char>, Seq<Seq<char>>)> {
        mesh_view(self.mesh@)
    }

    /// The cloud services and their URLs.
    pub closed spec fn cloud_view(&self) -> Seq<(Seq<char>, Seq<char>)> {
        cloud_view(self.cloud@)
    }

    /// Where the bus finds a service.
    pub open spec fn resolves(&self, name: Seq<char>) -> Option<EndpointV> {
        resolve_spec(self.local_view(), self.mesh_view(), self.cloud_view(), name)
    }

    /// Create an empty service bus.
    pub fn new() -> (r: Self)
        ensures
            r.local_view() == Seq::<ManifestV>::empty(),
            r.mesh_view() == Seq::<(Seq<char>, Seq<Seq<char>>)>::empty(),
            r.cloud_view() == Seq::<(Seq<char>, Seq<char>)>::empty(),
    {
        let r = ServiceBus { local: ServiceRegistry::new(), mesh: Vec::new(), cloud: Vec::new() };
        assert(mesh_view(r.mesh@) =~= Seq::<(Seq<char>, Seq<Seq<char>>)>::empty());
        assert(cloud_view(r.cloud@) =~= Seq::<(Seq<char>, Seq<char>)>::empty());
        r
    }

    /// The manifest a local service is registered with.
    pub open spec fn local_manifest(name: Seq<char>) -> ManifestV {
        ManifestV {
            name: name,
            version: "0.1.0"@,
            description: "Local service"@,
            input_schema: None,
            output_schema: None,
            capabilities: Seq::empty(),
        }
    }

    /// Register a local service.
    pub fn register(&mut self, name: &str, service: Box<dyn Service>)
        ensures
            final(self).local_view() == upsert_manifest(old(self).local_view(), Self::local_manifest(name@)),
            final(self).local_slot(name@) == Some(ServiceSlot { service }),
            forall|n: Seq<char>| n != name@ ==> final(self).local_slot(n) == old(self).local_slot(n),
            final(self).mesh_view() == old(self).mesh_view(),
            final(self).cloud_view() == old(self).cloud_view(),
    {
        let manifest = ServiceManifest {
            name: String::from_str(name),
            version: String::from_str("0.1.0"),
            description: String::from_str("Local service"),
            input_schema: None,
            output_schema: None,
            capabilities: Vec::new(),
        };
        assert(texts(manifest.capabilities@) =~= Seq::<Seq<char>>::empty());
        self.local.register_slot(ServiceSlot { service }, manifest);
    }

    /// Register a mesh peer's services, replacing what the peer listed before.
    pub fn register_mesh_peer(&mut self, peer_id: &str, services: Vec<String>)
        ensures
            final(self).mesh_view() == upsert_entry(old(self).mesh_view(), peer_id@, texts(services@)),
            final(self).local_view() == old(self).local_view(),
            final(self).cloud_view() == old(self).cloud_view(),
    {
        let ghost old_v = mesh_view(self.mesh@);
        let ghost sv = texts(services@);
        let i = find_key_index(&self.mesh, peer_id);
        if i < self.mesh.len() {
            proof {
                assert(is_first_entry(old_v, peer_id@, i as int));
                lemma_first_entry_unique(old_v, peer_id@, i as int);
            }
            self.mesh.set(i, (String::from_str(peer_id), services));
            assert(mesh_view(self.mesh@) =~= old_v.update(i as int, (peer_id@, sv)));
        } else {
            assert(!has_entry(old_v, peer_id@)) by {
                if has_entry(old_v, peer_id@) {
                    let k = choose|k: int| 0 <= k < old_v.len() && #[trigger] old_v[k].0 == peer_id@;
                    assert(self.mesh@[k].0@ == peer_id@);
                }
            }
            self.mesh.push((String::from_str(peer_id), services));
            assert(mesh_view(self.mesh@) =~= old_v.push((peer_id@, sv)));
        }
    }

    /// Register a cloud service endpoint, replacing an earlier URL for it.
    pub fn register_cloud(&mut self, name: &str, url: &str)
        ensures
            final(self).cloud_view() == upsert_entry(old(self).cloud_view(), name@, url@),
            final(self).local_view() == old(self).local_view(),
            final(self).mesh_view() == old(self).mesh_view(),
    {
        let ghost old_v = cloud_view(self.cloud@);
        let i = find_key_index(&self.cloud, name);
        if i < self.cloud.len() {
            proof {
                assert(is_first_entry(old_v, name@, i as int));
                lemma_first_entry_unique(old_v, name@, i as int);
            }
            self.cloud.set(i, (String::from_str(name), String::from_str(url)));
            assert(cloud_view(self.cloud@) =~= old_v.update(i as int, (name@, url@)));
        } else {
            assert(!has_entry(old_v, name@)) by {
                if has_entry(old_v, name@) {
                    let k = choose|k: int| 0 <= k < old_v.len() && #[trigger] old_v[k].0 == name@;
                    assert(self.cloud@[k].0@ == name@);
                }
            }
            self.cloud.push((String::from_str(name), String::from_str(url)));
            assert(cloud_view(self.cloud@) =~= old_v.push((name@, url@)));
        }
    }

    fn find_peer(&self, name: &str) -> (r: Option<String>)
        ensures
            opt_view(r) == peer_for(self.mesh_view(), name@),
    {
        let ghost mv = mesh_view(self.mesh@);
        let n = self.mesh.len();
        let mut i: usize = 0;
        while i < n
            invariant
                n == self.mesh@.len(),
                mv == mesh_view(self.mesh@),
                i <= n,
                forall|j: int| 0 <= j < i ==> !(#[trigger] mv[j].1).contains(name@),
            decreases n - i,
        {
            if contains_text(&self.mesh[i].1, name) {
                proof {
                    assert(is_first_peer(mv, name@, i as int));
                    let c = choose|x: int| is_first_peer(mv, name@, x);
                    assert(is_first_peer(mv, name@, c));
                    if c < i {
                        assert(!mv[c].1.contains(name@));
                    } else if c > i {
                        assert(!mv[i as int].1.contains(name@));
                    }
                }
                return Some(self.mesh[i].0.clone());
            }
            i = i + 1;
        }
        assert(!exists|x: int| is_first_peer(mv, name@, x));
        None
    }

    fn find_cloud(&self, name: &str) -> (r: Option<String>)
        ensures
            opt_view(r) == entry_value(self.cloud_view(), name@),
    {
        let ghost cv = cloud_view(self.cloud@);
        let n = self.cloud.len();
        let mut i: usize = 0;
        while i < n
            invariant
                n == self.cloud@.len(),
                cv == cloud_view(self.cloud@),
                i <= n,
                forall|j: int| 0 <= j < i ==> #[trigger] cv[j].0 != name@,
            decreases n - i,
        {
            if str_eq(self.cloud[i].0.as_str(), name) {
                proof {
                    assert(is_first_entry(cv, name@, i as int));
                    lemma_first_entry_unique(cv, name@, i as int);
                }
                return Some(self.cloud[i].1.clone());
            }
            i = i + 1;
        }
        assert(!has_entry(cv, name@)) by {
            if has_entry(cv, name@) {
                let k = choose|k: int| 0 <= k < cv.len() && #[trigger] cv[k].0 == name@;
                assert(cv[k].0 != name@);
            }
        }
        None
    }

    /// Resolve the best endpoint for a service: local, then mesh, then cloud.
    pub fn resolve(&self, name: &str) -> (r: Result<Endpoint, BusError>)
        ensures
            match self.resolves(name@) {
                Some(e) => r matches Ok(ep) && ep.deep_view() == e,
                None => r matches Err(BusError::NotFound(n)) && n@ == name@,
            },
    {
        if self.local.get(name).is_some() {
            return Ok(Endpoint::Local);
        }
        match self.find_peer(name) {
            Some(peer_id) => {
                return Ok(Endpoint::Mesh { peer_id });
            },
            None => {},
        }
        match self.find_cloud(name) {
            Some(url) => Ok(Endpoint::Cloud { url }),
            None => Err(BusError::NotFound(String::from_str(name))),
        }
    }

    /// Validate a capability token for an operation on a request of
    /// `blob_len + input_len` bytes at clock reading `now`. Checked in turn:
    /// the expiry, the scope, the invocation limit (a limit of 0 allows no
    /// call; the bus keeps no count across calls), the byte limit. The
    /// signature is not checked.
    fn validate_capability(
        &self,
        token: &CapabilityToken,
        operation: &str,
        blob_len: usize,
        input_len: usize,
        now: u64,
    ) -> (r: Result<(), BusError>)
        ensures
            ({
                let bytes = blob_len + input_len;
                let expired = token_expired(*token, now);
                &&& r is Ok <==> !expired && token_allows(*token, operation@, bytes)
                &&& r matches Err(e) ==> is_token_refusal(*token, operation@, bytes, expired, e)
            }),
    {
        match &token.expires {
            Some(e) => {
                let now_text = timestamp_of(now);
                if !str_lt(now_text.as_str(), e.as_str()) {
                    return Err(BusError::TokenExpired);
                }
            },
            None => {},
        }
        if !contains_text(&token.scope, operation) {
            let mut m = String::from_str(operation);
            m.append(" not in scope ");
            push_debug_list(&mut m, &token.scope);
            return Err(BusError::CapabilityRejected(m));
        }
        match token.max_invocations {
            Some(0) => {
                return Err(BusError::InvocationLimit);
            },
            _ => {},
        }
        match token.max_bytes {
            Some(m) => {
                if blob_len as u64 > m || input_len as u64 > m - blob_len as u64 {
                    return Err(BusError::ByteLimit);
                }
            },
            None => {},
        }
        Ok(())
    }

    /// What `invoke` answers for a token that is, or is not, expired: a
    /// refused token gives its error; then the service is resolved; a local
    /// service is called with `blob` and `input` and what it returns is
    /// passed on, its failure as `Service` with the registry's message;
    /// mesh and cloud endpoints cannot be called yet and give `Network`.
    pub open spec fn invoke_answer(
        &self,
        name: Seq<char>,
        blob: Blob,
        input: Json,
        token: CapabilityToken,
        expired: bool,
        r: Result<(Blob, Json), BusError>,
    ) -> bool {
        let bytes = request_bytes(blob.deep_view(), input.deep_view());
        if expired || !token_allows(token, "invoke"@, bytes) {
            r matches Err(e) && is_token_refusal(token, "invoke"@, bytes, expired, e)
        } else {
            match self.resolves(name) {
                None => r matches Err(BusError::NotFound(n)) && n@ == name,
                Some(EndpointV::Local) => self.local_slot(name) matches Some(slot) && {
                    let out = slot.service.outcome(blob.deep_view(), input.deep_view());
                    &&& r matches Err(e) ==> e matches BusError::Service(m) && ("service "@ + name
                        + " failed: "@).is_prefix_of(m@)
                    &&& slot.service.states_outcome() ==> {
                        &&& r matches Ok((b, o)) ==> out == Ok::<(BlobV, JsonV), Seq<char>>(
                            (b.deep_view(), o.deep_view()),
                        )
                        &&& r matches Err(e) ==> e matches BusError::Service(m) && out matches Err(reason)
                            && m@ == "service "@ + name + " failed: "@ + reason
                    }
                },
                Some(EndpointV::Mesh(p)) => r matches Err(BusError::Network(m)) && m@ == remote_error_text(
                    "mesh"@,
                    p,
                ),
                Some(EndpointV::Cloud(u)) => r matches Err(BusError::Network(m)) && m@ == remote_error_text(
                    "cloud"@,
                    u,
                ),
            }
        }
    }

    /// What `stream` answers for a token that is, or is not, expired: as
    /// `invoke_answer`, but a local service answers in one final chunk and
    /// remote endpoints cannot stream yet.
    pub open spec fn stream_answer(
        &self,
        name: Seq<char>,
        blob: Blob,
        input: Json,
        token: CapabilityToken,
        expired: bool,
        r: Result<Vec<StreamChunk>, BusError>,
    ) -> bool {
        let bytes = request_bytes(blob.deep_view(), input.deep_view());
        if expired || !token_allows(token, "stream"@, bytes) {
            r matches Err(e) && is_token_refusal(token, "stream"@, bytes, expired, e)
        } else {
            match self.resolves(name) {
                None => r matches Err(BusError::NotFound(n)) && n@ == name,
                Some(EndpointV::Local) => self.local_slot(name) matches Some(slot) && {
                    let out = slot.service.outcome(blob.deep_view(), input.deep_view());
                    &&& r matches Ok(chunks) ==> chunks@.len() == 1 && chunks@[0].done
                    &&& r matches Err(e) ==> e matches BusError::Service(m) && ("service "@ + name
                        + " failed: "@).is_prefix_of(m@)
                    &&& slot.service.states_outcome() ==> {
                        &&& r matches Ok(chunks) ==> out == Ok::<(BlobV, JsonV), Seq<char>>(
                            (chunks@[0].blob.deep_view(), chunks@[0].output.deep_view()),
                        )
                        &&& r matches Err(e) ==> e matches BusError::Service(m) && out matches Err(reason)
                            && m@ == "service "@ + name + " failed: "@ + reason
                    }
                },
                Some(_) => r matches Err(BusError::Network(m)) && m@
                    == "streaming not yet implemented for remote endpoints"@,
            }
        }
    }

    /// The byte lengths of a request: the blob's serialized bytes and the
    /// input's JSON text.
    fn request_lengths(blob: &Blob, input: &Json) -> (r: (usize, usize))
        ensures
            r.0 == blob_bytes(blob.deep_view()).len(),
            r.1 == encode_utf8(json_text(input.deep_view())).len(),
    {
        let bytes = match blob.serialize() {
            Ok(b) => b,
            Err(_) => Vec::new(),
        };
        let text = input.to_text();
        (bytes.len(), text.as_str().as_bytes().len())
    }

    /// Invoke a service at clock reading `now` (seconds since the Unix
    /// epoch), which decides whether the token has expired.
    pub fn invoke_at(&self, name: &str, blob: &Blob, input: &Json, token: &CapabilityToken, now: u64) -> (r:
        Result<(Blob, Json), BusError>)
        ensures
            self.invoke_answer(name@, *blob, *input, *token, token_expired(*token, now), r),
    {
        let (blob_len, input_len) = Self::request_lengths(blob, input);
        match self.validate_capability(token, "invoke", blob_len, input_len, now) {
            Ok(()) => {},
            Err(e) => {
                return Err(e);
            },
        }
        let endpoint = match self.resolve(name) {
            Ok(e) => e,
            Err(e) => {
                return Err(e);
            },
        };
        match endpoint {
            Endpoint::Local => match self.local.invoke(name, blob, input) {
                Ok(res) => Ok(res),
                Err(e) => Err(BusError::Service(e.message())),
            },
            Endpoint::Mesh { peer_id } => {
                let mut m = String::from_str("mesh invocation to ");
                m.append(peer_id.as_str());
                m.append(" not yet implemented");
                proof {
                    reveal_strlit("mesh");
                    reveal_strlit(" invocation to ");
                    reveal_strlit("mesh invocation to ");
                    assert("mesh"@ + " invocation to "@ =~= "mesh invocation to "@);
                }
                Err(BusError::Network(m))
            },
            Endpoint::Cloud { url } => {
                let mut m = String::from_str("cloud invocation to ");
                m.append(url.as_str());
                m.append(" not yet implemented");
                proof {
                    reveal_strlit("cloud");
                    reveal_strlit(" invocation to ");
                    reveal_strlit("cloud invocation to ");
                    assert("cloud"@ + " invocation to "@ =~= "cloud invocation to "@);
                }
                Err(BusError::Network(m))
            },
        }
    }

    /// Invoke a service, the token's expiry judged at the system clock's
    /// reading: the answer is `invoke_answer` for some clock reading.
    pub fn invoke(&self, name: &str, blob: &Blob, input: &Json, token: &CapabilityToken) -> (r: Result<
        (Blob, Json),
        BusError,
    >)
        ensures
            exists|now: u64| self.invoke_answer(name@, *blob, *input, *token, token_expired(*token, now), r),
    {
        self.invoke_at(name, blob, input, token, clock_seconds())
    }

    /// Invoke a service with streaming output at clock reading `now`.
    pub fn stream_at(&self, name: &str, blob: &Blob, input: &Json, token: &CapabilityToken, now: u64) -> (r:
        Result<Vec<StreamChunk>, BusError>)
        ensures
            self.stream_answer(name@, *blob, *input, *token, token_expired(*token, now), r),
    {
        let (blob_len, input_len) = Self::request_lengths(blob, input);
        match self.validate_capability(token, "stream", blob_len, input_len, now) {
            Ok(()) => {},
            Err(e) => {
                return Err(e);
            },
        }
        let endpoint = match self.resolve(name) {
            Ok(e) => e,
            Err(e) => {
                return Err(e);
            },
        };
        match endpoint {
            Endpoint::Local => match self.local.invoke(name, blob, input) {
                Ok((new_blob, output)) => {
                    let mut chunks: Vec<StreamChunk> = Vec::new();
                    chunks.push(StreamChunk { blob: new_blob, output, done: true });
                    Ok(chunks)
                },
                Err(e) => Err(BusError::Service(e.message())),
            },
            _ => Err(BusError::Network(String::from_str("streaming not yet implemented for remote endpoints"))),
        }
    }

    /// Invoke a service with streaming output, the token's expiry judged at
    /// the system clock's reading: the answer is `stream_answer` for some
    /// clock reading.
    pub fn stream(&self, name: &str, blob: &Blob, input: &Json, token: &CapabilityToken) -> (r: Result<
        Vec<StreamChunk>,
        BusError,
    >)
        ensures
            exists|now: u64| self.stream_answer(name@, *blob, *input, *token, token_expired(*token, now), r),
    {
        self.stream_at(name, blob, input, token, clock_seconds())
    }
}

impl Default for ServiceBus {
    fn default() -> (r: Self)
        ensures
            r.local_view() == Seq::<ManifestV>::empty(),
            r.mesh_view() == Seq::<(Seq<char>, Seq<Seq<char>>)>::empty(),
            r.cloud_view() == Seq::<(Seq<char>, Seq<char>)>::empty(),
    {
        Self::new()
    }
}

/// The view of an optional string.
pub open spec fn opt_view(o: Option<String>) -> Option<Seq<char>> {
    match o {
        Some(s) => Some(s@),
        None => None,
    }
}

/// Law: resolution prefers a local service to any mesh peer or cloud
/// endpoint, and a mesh peer (one that lists the service) to a cloud one.
pub proof fn law_resolve_priority(
    local: Seq<ManifestV>,
    mesh: Seq<(Seq<char>, Seq<Seq<char>>)>,
    cloud: Seq<(Seq<char>, Seq<char>)>,
    name: Seq<char>,
)
    ensures
        is_registered(local, name) ==> resolve_spec(local, mesh, cloud, name) == Some(EndpointV::Local),
        resolve_spec(local, mesh, cloud, name) matches Some(EndpointV::Mesh(p)) ==> {
            &&& !is_registered(local, name)
            &&& exists|i: int| 0 <= i < mesh.len() && mesh[i].0 == p && (#[trigger] mesh[i].1).contains(name)
        },
        resolve_spec(local, mesh, cloud, name) matches Some(EndpointV::Cloud(u)) ==> {
            &&& !is_registered(local, name)
            &&& forall|i: int| 0 <= i < mesh.len() ==> !(#[trigger] mesh[i].1).contains(name)
            &&& exists|i: int| 0 <= i < cloud.len() && #[trigger] cloud[i] == (name, u)
        },
        resolve_spec(local, mesh, cloud, name) is None ==> {
            &&& !is_registered(local, name)
            &&& forall|i: int| 0 <= i < mesh.len() ==> !(#[trigger] mesh[i].1).contains(name)
            &&& forall|i: int| 0 <= i < cloud.len() ==> #[trigger] cloud[i].0 != name
        },
{
    if !is_registered(local, name) && peer_for(mesh, name) is None {
        assert forall|i: int| 0 <= i < mesh.len() implies !(#[trigger] mesh[i].1).contains(name) by {
            if mesh[i].1.contains(name) {
                lemma_first_peer_exists(mesh, name, i);
            }
        }
        if entry_value(cloud, name) is Some {
            let c = choose|x: int| is_first_entry(cloud, name, x);
            lemma_first_entry_exists(cloud, name, choose|i: int| 0 <= i < cloud.len() && #[trigger] cloud[i].0 == name);
            assert(is_first_entry(cloud, name, c));
            assert(cloud[c] == (name, cloud[c].1));
        } else {
            assert forall|i: int| 0 <= i < cloud.len() implies #[trigger] cloud[i].0 != name by {
                if cloud[i].0 == name {
                    assert(has_entry(cloud, name));
                }
            }
        }
    } else if !is_registered(local, name) {
        let c = choose|x: int| is_first_peer(mesh, name, x);
        assert(is_first_peer(mesh, name, c));
    }
}

proof fn lemma_first_peer_exists(mesh: Seq<(Seq<char>, Seq<Seq<char>>)>, name: Seq<char>, j: int)
    requires
        0 <= j < mesh.len(),
        mesh[j].1.contains(name),
    ensures
        exists|i: int| is_first_peer(mesh, name, i),
{
    let p = |e: (Seq<char>, Seq<Seq<char>>)| e.1.contains(name);
    lemma_first_where_exists(mesh, p, j);
    let i = choose|i: int| is_first_where(mesh, p, i);
    assert(is_first_peer(mesh, name, i));
}

/// Law: a service registered locally resolves to the local endpoint,
/// whatever the mesh and cloud tables hold.
pub proof fn law_register_then_resolve_local(
    local: Seq<ManifestV>,
    mesh: Seq<(Seq<char>, Seq<Seq<char>>)>,
    cloud: Seq<(Seq<char>, Seq<char>)>,
    name: Seq<char>,
)
    ensures
        resolve_spec(upsert_manifest(local, ServiceBus::local_manifest(name)), mesh, cloud, name) == Some(
            EndpointV::Local,
        ),
{
    law_registered_after_register(local, ServiceBus::local_manifest(name), name);
}

} // verus!
