//! Service contract: a service is a pure function `(blob, input) → (blob, output)`,
//! and a registry finds services by name.
//!
//! Discovery is by name only: a service exists if it is in the registry.
use vstd::prelude::*;
use crate::first::{is_first_where, lemma_first_where_exists, lemma_first_where_unique};
use crate::json::{Json, JsonV};
use crate::state_blob::{blob_error_text, Blob, BlobError, BlobV};
use crate::text::{str_eq, texts};

verus! {

/// A stateless service: transforms a blob and produces output.
///
/// Implementors must ensure that the same `(blob, input)` always gives the
/// same `(new_blob, output)`, with no ambient state and no hidden clock.
/// An implementation states that function by overriding `outcome` and
/// `states_outcome`; `invoke` then answers as `outcome` says. Of an
/// implementation that does not (one written outside verified code),
/// nothing is claimed.
pub trait Service: Send + Sync {
    /// Whether this implementation states its outcome.
    open spec fn states_outcome(&self) -> bool {
        false
    }

    /// What the service answers for a blob and an input: the new blob and
    /// the output, or the message of the error it fails with. Meaningful
    /// where `states_outcome` holds.
    open spec fn outcome(&self, blob: BlobV, input: JsonV) -> Result<(BlobV, JsonV), Seq<char>> {
        Err(Seq::empty())
    }

    /// The service name.
    fn name(&self) -> &str;

    /// The service version (semver).
    fn version(&self) -> &str;

    /// Execute the service: `(blob, input) → (new_blob, output)`.
    fn invoke(&self, blob: &Blob, input: &Json) -> (r: Result<(Blob, Json), ServiceError>)
        ensures
            self.states_outcome() ==> (r matches Ok((b, o)) ==> self.outcome(
                blob.deep_view(),
                input.deep_view(),
            ) == Ok::<(BlobV, JsonV), Seq<char>>((b.deep_view(), o.deep_view()))),
            self.states_outcome() ==> (r matches Err(e) ==> self.outcome(
                blob.deep_view(),
                input.deep_view(),
            ) == Err::<(BlobV, JsonV), Seq<char>>(service_error_text(e))),
    ;
}

/// Errors that can occur during service invocation.
#[derive(Debug, Clone, PartialEq)]
pub enum ServiceError {
    Invocation { name: String, reason: String },
    Blob(BlobError),
    UnknownService(String),
}

/// The message that a `ServiceError` displays.
pub open spec fn service_error_text(e: ServiceError) -> Seq<char> {
    match e {
        ServiceError::Invocation { name, reason } => "service "@ + name@ + " failed: "@ + reason@,
        ServiceError::Blob(b) => "blob error: "@ + blob_error_text(b),
        ServiceError::UnknownService(n) => "unknown service: "@ + n@,
    }
}

impl ServiceError {
    /// The message of this error.
    pub fn message(&self) -> (r: String)
        ensures
            r@ == service_error_text(*self),
    {
        match self {
            ServiceError::Invocation { name, reason } => {
                let mut out = String::from_str("service ");
                out.append(name.as_str());
                out.append(" failed: ");
                out.append(reason.as_str());
                out
            },
            ServiceError::Blob(b) => {
                let mut out = String::from_str("blob error: ");
                let m = b.message();
                out.append(m.as_str());
                out
            },
            ServiceError::UnknownService(n) => {
                let mut out = String::from_str("unknown service: ");
                out.append(n.as_str());
                out
            },
        }
    }
}

impl vstd::std_specs::convert::FromSpecImpl<BlobError> for ServiceError {
    open spec fn obeys_from_spec() -> bool {
        true
    }

    open spec fn from_spec(v: BlobError) -> Self {
        ServiceError::Blob(v)
    }
}

impl From<BlobError> for ServiceError {
    fn from(v: BlobError) -> Self {
        ServiceError::Blob(v)
    }
}

/// A service manifest: declares a service's interface.
#[derive(Debug, Clone)]
pub struct ServiceManifest {
    pub name: String,
    pub version: String,
    pub description: String,
    pub input_schema: Option<String>,
    pub output_schema: Option<String>,
    pub capabilities: Vec<String>,
}

/// The value of a manifest.
pub struct ManifestV {
    pub name: Seq<char>,
    pub version: Seq<char>,
    pub description: Seq<char>,
    pub input_schema: Option<Seq<char>>,
    pub output_schema: Option<Seq<char>>,
    pub capabilities: Seq<Seq<char>>,
}

impl DeepView for ServiceManifest {
    type V = ManifestV;

    open spec fn deep_view(&self) -> ManifestV {
        ManifestV {
            name: self.name@,
            version: self.version@,
            description: self.description@,
            input_schema: match self.input_schema {
                Some(s) => Some(s@),
                None => None,
            },
            output_schema: match self.output_schema {
                Some(s) => Some(s@),
                None => None,
            },
            capabilities: texts(self.capabilities@),
        }
    }
}

/// `i` is the first manifest named `n`.
pub open spec fn is_first_named(ms: Seq<ManifestV>, n: Seq<char>, i: int) -> bool {
    is_first_where(ms, |m: ManifestV| m.name == n, i)
}

/// Whether a service named `n` is registered.
pub open spec fn is_registered(ms: Seq<ManifestV>, n: Seq<char>) -> bool {
    exists|i: int| 0 <= i < ms.len() && #[trigger] ms[i].name == n
}

/// The manifests after registering `m`: a manifest of the same name is
/// replaced in place, a new name is added at the end.
pub open spec fn upsert_manifest(ms: Seq<ManifestV>, m: ManifestV) -> Seq<ManifestV> {
    if is_registered(ms, m.name) {
        ms.update(choose|i: int| is_first_named(ms, m.name, i), m)
    } else {
        ms.push(m)
    }
}

/// A registered service: the box that holds it.
pub struct ServiceSlot {
    pub service: Box<dyn Service>,
}

/// The slot bound to name `n`, among slots `ss` registered with the
/// manifests `ms` (the two in step): the one of the first manifest so named.
pub open spec fn bound_slot(ms: Seq<ManifestV>, ss: Seq<ServiceSlot>, n: Seq<char>) -> Option<
    ServiceSlot,
> {
    if is_registered(ms, n) {
        Some(ss[choose|i: int| is_first_named(ms, n, i)])
    } else {
        None
    }
}

/// The slots after registering slot `s` under name `n`: it takes the place
/// of the slot of the first manifest so named, or is added at the end.
pub open spec fn upsert_slot(
    ms: Seq<ManifestV>,
    ss: Seq<ServiceSlot>,
    n: Seq<char>,
    s: ServiceSlot,
) -> Seq<ServiceSlot> {
    if is_registered(ms, n) {
        ss.update(choose|i: int| is_first_named(ms, n, i), s)
    } else {
        ss.push(s)
    }
}

/// A registry of available services, keyed by manifest name.
pub struct ServiceRegistry {
    services: Vec<ServiceSlot>,
    manifests: Vec<ServiceManifest>,
}

impl ServiceRegistry {
    #[verifier::type_invariant]
    spec fn aligned(&self) -> bool {
        self.services@.len() == self.manifests@.len()
    }

    /// The manifests of the registered services, in registration order.
    pub closed spec fn manifests(&self) -> Seq<ManifestV> {
        Seq::new(self.manifests@.len(), |i: int| self.manifests@[i].deep_view())
    }

    /// The registered services, in step with `manifests()`.
    pub closed spec fn slots(&self) -> Seq<ServiceSlot> {
        self.services@
    }

    /// The slot of the service registered under name `n`, if any.
    pub open spec fn slot_for(&self, n: Seq<char>) -> Option<ServiceSlot> {
        bound_slot(self.manifests(), self.slots(), n)
    }

    /// Create an empty registry.
    pub fn new() -> (r: Self)
        ensures
            r.manifests() == Seq::<ManifestV>::empty(),
    {
        let r = ServiceRegistry { services: Vec::new(), manifests: Vec::new() };
        assert(r.manifests() =~= Seq::<ManifestV>::empty());
        r
    }

    fn find(&self, name: &str) -> (r: usize)
        ensures
            r <= self.manifests().len(),
            r < self.manifests().len() ==> is_first_named(self.manifests(), name@, r as int),
            r == self.manifests().len() ==> !is_registered(self.manifests(), name@),
    {
        let n = self.manifests.len();
        let mut i: usize = 0;
        while i < n
            invariant
                n == self.manifests@.len(),
                i <= n,
                forall|j: int| 0 <= j < i ==> #[trigger] self.manifests()[j].name != name@,
            decreases n - i,
        {
            if str_eq(self.manifests[i].name.as_str(), name) {
                return i;
            }
            i = i + 1;
        }
        n
    }

    /// Register a service under its manifest's name, replacing any service
    /// registered under that name.
    pub fn register(&mut self, service: Box<dyn Service>, manifest: ServiceManifest)
        ensures
            final(self).manifests() == upsert_manifest(old(self).manifests(), manifest.deep_view()),
            final(self).slot_for(manifest.name@) == Some(ServiceSlot { service }),
            forall|n: Seq<char>| n != manifest.name@ ==> final(self).slot_for(n) == old(self).slot_for(n),
    {
        self.register_slot(ServiceSlot { service }, manifest);
    }

    /// Register the service held by `slot` under its manifest's name.
    pub(crate) fn register_slot(&mut self, slot: ServiceSlot, manifest: ServiceManifest)
        ensures
            final(self).manifests() == upsert_manifest(old(self).manifests(), manifest.deep_view()),
            final(self).slot_for(manifest.name@) == Some(slot),
            forall|n: Seq<char>| n != manifest.name@ ==> final(self).slot_for(n) == old(self).slot_for(n),
    {
        proof {
            use_type_invariant(&*self);
        }
        let ghost mv = manifest.deep_view();
        let ghost old_ms = self.manifests();
        let ghost old_ss = self.slots();
        let ghost sv = slot;
        proof {
            lemma_bound_after_upsert(old_ms, old_ss, mv, sv);
        }
        let i = self.find(manifest.name.as_str());
        if i < self.manifests.len() {
            proof {
                assert(is_first_named(old_ms, mv.name, i as int));
                assert(is_registered(old_ms, mv.name));
                let c = choose|x: int| is_first_named(old_ms, mv.name, x);
                assert(is_first_named(old_ms, mv.name, c));
                if c < i {
                    assert(old_ms[c].name != mv.name);
                } else if c > i {
                    assert(old_ms[i as int].name != mv.name);
                }
            }
            let mut taken = ServiceRegistry::new();
            std::mem::swap(self, &mut taken);
            proof {
                use_type_invariant(&taken);
            }
            let ServiceRegistry { mut services, mut manifests } = taken;
            services.set(i, slot);
            manifests.set(i, manifest);
            *self = ServiceRegistry { services, manifests };
            assert(self.manifests() =~= old_ms.update(i as int, mv));
            assert(self.slots() =~= upsert_slot(old_ms, old_ss, mv.name, sv));
        } else {
            let mut taken = ServiceRegistry::new();
            std::mem::swap(self, &mut taken);
            proof {
                use_type_invariant(&taken);
            }
            let ServiceRegistry { mut services, mut manifests } = taken;
            services.push(slot);
            manifests.push(manifest);
            *self = ServiceRegistry { services, manifests };
            assert(self.manifests() =~= old_ms.push(mv));
            assert(self.slots() =~= upsert_slot(old_ms, old_ss, mv.name, sv));
        }
    }

    /// Look up a service by name: the box of the service registered under
    /// it.
    pub fn get(&self, name: &str) -> (r: Option<&Box<dyn Service>>)
        ensures
            r is Some <==> is_registered(self.manifests(), name@),
            r matches Some(b) ==> self.slot_for(name@) matches Some(slot) && b == &slot.service,
    {
        proof {
            use_type_invariant(self);
        }
        let i = self.find(name);
        if i < self.manifests.len() {
            proof {
                assert(self.manifests()[i as int].name == name@);
                let c = choose|x: int| is_first_named(self.manifests(), name@, x);
                lemma_first_named_unique(self.manifests(), name@, i as int, c);
            }
            Some(&self.services[i].service)
        } else {
            None
        }
    }

    /// List all registered service manifests.
    pub fn list(&self) -> (r: Vec<&ServiceManifest>)
        ensures
            r@.len() == self.manifests().len(),
            forall|i: int| 0 <= i < r@.len() ==> (#[trigger] r@[i]).deep_view() == self.manifests()[i],
    {
        let mut r: Vec<&ServiceManifest> = Vec::new();
        let n = self.manifests.len();
        for i in 0..n
            invariant
                n == self.manifests@.len(),
                r@.len() == i,
                forall|k: int| 0 <= k < i ==> (#[trigger] r@[k]).deep_view() == self.manifests()[k],
        {
            r.push(&self.manifests[i]);
        }
        r
    }

    /// Invoke a service by name. An unregistered name is answered with
    /// `UnknownService`; otherwise the service registered under the name is
    /// called with `blob` and `input`, its result is passed on, and its
    /// failure is reported as an `Invocation` error naming the service, with
    /// the failure's message.
    pub fn invoke(&self, name: &str, blob: &Blob, input: &Json) -> (r: Result<(Blob, Json), ServiceError>)
        ensures
            match self.slot_for(name@) {
                None => r matches Err(ServiceError::UnknownService(n)) && n@ == name@,
                Some(slot) => {
                    &&& r matches Err(e) ==> e matches ServiceError::Invocation { name: n, .. } && n@ == name@
                    &&& slot.service.states_outcome() ==> {
                        let out = slot.service.outcome(blob.deep_view(), input.deep_view());
                        &&& r matches Ok((b, o)) ==> out == Ok::<(BlobV, JsonV), Seq<char>>(
                            (b.deep_view(), o.deep_view()),
                        )
                        &&& r matches Err(e) ==> e matches ServiceError::Invocation { reason, .. } && out
                            == Err::<(BlobV, JsonV), Seq<char>>(reason@)
                    }
                },
            },
    {
        proof {
            use_type_invariant(self);
        }
        let i = self.find(name);
        if i >= self.manifests.len() {
            return Err(ServiceError::UnknownService(String::from_str(name)));
        }
        proof {
            let c = choose|x: int| is_first_named(self.manifests(), name@, x);
            lemma_first_named_unique(self.manifests(), name@, i as int, c);
        }
        match self.services[i].service.invoke(blob, input) {
            Ok(res) => Ok(res),
            Err(e) => Err(ServiceError::Invocation { name: String::from_str(name), reason: e.message() }),
        }
    }
}

impl Default for ServiceRegistry {
    fn default() -> (r: Self)
        ensures
            r.manifests() == Seq::<ManifestV>::empty(),
    {
        Self::new()
    }
}

/// Law: after registering a service, it is found under its manifest's name.
pub proof fn law_registered_after_register(ms: Seq<ManifestV>, m: ManifestV, other: Seq<char>)
    ensures
        is_registered(upsert_manifest(ms, m), m.name),
        other != m.name ==> (is_registered(upsert_manifest(ms, m), other) == is_registered(ms, other)),
{
    let r = upsert_manifest(ms, m);
    if is_registered(ms, m.name) {
        let i = choose|i: int| 0 <= i < ms.len() && #[trigger] ms[i].name == m.name;
        lemma_first_named_exists(ms, m.name, i);
        let c = choose|x: int| is_first_named(ms, m.name, x);
        assert(r[c].name == m.name);
        if other != m.name {
            if is_registered(ms, other) {
                let k = choose|k: int| 0 <= k < ms.len() && #[trigger] ms[k].name == other;
                assert(r[k].name == other);
            }
            if is_registered(r, other) {
                let k = choose|k: int| 0 <= k < r.len() && #[trigger] r[k].name == other;
                assert(ms[k].name == other);
            }
        }
    } else {
        assert(r[ms.len() as int].name == m.name);
        if other != m.name {
            if is_registered(ms, other) {
                let k = choose|k: int| 0 <= k < ms.len() && #[trigger] ms[k].name == other;
                assert(r[k].name == other);
            }
            if is_registered(r, other) {
                let k = choose|k: int| 0 <= k < r.len() && #[trigger] r[k].name == other;
                assert(ms[k].name == other);
            }
        }
    }
}

proof fn lemma_first_named_unique(ms: Seq<ManifestV>, n: Seq<char>, i: int, j: int)
    requires
        is_first_named(ms, n, i),
        is_first_named(ms, n, j),
    ensures
        i == j,
{
    lemma_first_where_unique(ms, |m: ManifestV| m.name == n, i, j);
}

/// Registering `s` under `m.name` binds that name to `s` and leaves every
/// other name bound as it was.
proof fn lemma_bound_after_upsert(
    ms: Seq<ManifestV>,
    ss: Seq<ServiceSlot>,
    m: ManifestV,
    s: ServiceSlot,
)
    requires
        ms.len() == ss.len(),
    ensures
        bound_slot(upsert_manifest(ms, m), upsert_slot(ms, ss, m.name, s), m.name) == Some(s),
        forall|n: Seq<char>|
            n != m.name ==> bound_slot(upsert_manifest(ms, m), upsert_slot(ms, ss, m.name, s), n)
                == bound_slot(ms, ss, n),
{
    let ms2 = upsert_manifest(ms, m);
    let ss2 = upsert_slot(ms, ss, m.name, s);
    law_registered_after_register(ms, m, m.name);
    if is_registered(ms, m.name) {
        let i = choose|i: int| 0 <= i < ms.len() && #[trigger] ms[i].name == m.name;
        lemma_first_named_exists(ms, m.name, i);
    }
    let c = if is_registered(ms, m.name) {
        choose|i: int| is_first_named(ms, m.name, i)
    } else {
        ms.len() as int
    };
    assert(is_first_named(ms2, m.name, c));
    let c2 = choose|i: int| is_first_named(ms2, m.name, i);
    lemma_first_named_unique(ms2, m.name, c, c2);
    assert forall|n: Seq<char>| n != m.name implies bound_slot(ms2, ss2, n) == bound_slot(
        ms,
        ss,
        n,
    ) by {
        law_registered_after_register(ms, m, n);
        if is_registered(ms, n) {
            let j = choose|j: int| 0 <= j < ms.len() && #[trigger] ms[j].name == n;
            lemma_first_named_exists(ms, n, j);
            let k = choose|i: int| is_first_named(ms, n, i);
            assert(is_first_named(ms2, n, k)) by {
                assert forall|x: int| 0 <= x < k implies #[trigger] ms2[x].name != n by {
                    assert(ms[x].name != n);
                }
            }
            let k2 = choose|i: int| is_first_named(ms2, n, i);
            lemma_first_named_unique(ms2, n, k, k2);
            assert(k != c);
        }
    }
}

proof fn lemma_first_named_exists(ms: Seq<ManifestV>, n: Seq<char>, j: int)
    requires
        0 <= j < ms.len(),
        ms[j].name == n,
    ensures
        exists|i: int| is_first_named(ms, n, i),
{
    let p = |m: ManifestV| m.name == n;
    lemma_first_where_exists(ms, p, j);
    let i = choose|i: int| is_first_where(ms, p, i);
    assert(is_first_named(ms, n, i));
}

} // verus!
