//! Progressive restoration: materialize a system from a blob, in stages.
//!
//! Like a progressive JPEG: useful immediately, sharpening over time. Each
//! stage is a superset of the previous one; once stage N is reached, what
//! stages 0..N provide is there.
use vstd::prelude::*;
use crate::json::{get_spec, insert_spec, law_insert_then_get, Json, JsonV};
use crate::calendar::{clock_seconds, timestamp_text};
use crate::state_blob::{blob_error_text, child_view, Blob, BlobError, BlobV, BLOB_VERSION};

verus! {

/// The four stages of progressive restoration, in restoration order.
#[derive(Debug, Clone, Copy, PartialEq, Eq, PartialOrd, Ord, Hash, Structural)]
pub enum RestoreStage {
    /// Stage 0, shell: a static capture painted immediately.
    Shell,
    /// Stage 1, structure: tree, layout and styles; the page looks complete.
    Structure,
    /// Stage 2, interactivity: handlers attached, forms editable.
    Interactivity,
    /// Stage 3, full state: connections, live data, workers.
    FullState,
}

/// The position of a stage in restoration order.
pub open spec fn stage_rank(s: RestoreStage) -> nat {
    match s {
        RestoreStage::Shell => 0,
        RestoreStage::Structure => 1,
        RestoreStage::Interactivity => 2,
        RestoreStage::FullState => 3,
    }
}

/// The stage at a position in restoration order.
pub open spec fn stage_at(i: nat) -> RestoreStage {
    if i == 0 {
        RestoreStage::Shell
    } else if i == 1 {
        RestoreStage::Structure
    } else if i == 2 {
        RestoreStage::Interactivity
    } else {
        RestoreStage::FullState
    }
}

/// The human-readable name of a stage.
pub open spec fn stage_name(s: RestoreStage) -> Seq<char> {
    match s {
        RestoreStage::Shell => "shell"@,
        RestoreStage::Structure => "structure"@,
        RestoreStage::Interactivity => "interactivity"@,
        RestoreStage::FullState => "full_state"@,
    }
}

/// The payload member that records that a stage was restored.
pub open spec fn stage_key(s: RestoreStage) -> Seq<char> {
    "_restored_"@ + stage_name(s)
}

/// A payload after the first `n` stages have each recorded themselves
/// (`true` under their key; a payload that is not an object is unchanged).
pub open spec fn marked_payload(p: JsonV, n: nat) -> JsonV
    decreases n,
{
    if n == 0 {
        p
    } else {
        insert_spec(marked_payload(p, (n - 1) as nat), stage_key(stage_at((n - 1) as nat)), JsonV::Bool(true))
    }
}

/// The blob that restoring `stage` makes from `p` at clock reading `now`: a
/// child of `p` whose payload records the stage (when it is an object).
pub open spec fn stage_view(p: BlobV, stage: RestoreStage, now: u64) -> BlobV {
    child_view(p, insert_spec(p.payload, stage_key(stage), JsonV::Bool(true)), now)
}

/// The blob after the first `n` stages have been restored from `b`, in
/// order, at clock reading `now`.
pub open spec fn restored_view(b: BlobV, n: nat, now: u64) -> BlobV
    decreases n,
{
    if n == 0 {
        b
    } else {
        stage_view(restored_view(b, (n - 1) as nat, now), stage_at((n - 1) as nat), now)
    }
}

/// What restoring `blob` up to `target` at clock reading `now` answers: a
/// blob without a version or a schema is refused with its validation
/// message; otherwise the blob after every stage up to the target, and the
/// target.
pub open spec fn restore_answer(
    blob: BlobV,
    target: RestoreStage,
    now: u64,
    r: Result<(Blob, RestoreStage), RestoreError>,
) -> bool {
    if blob.version.len() == 0 {
        r matches Err(RestoreError::Blob(m)) && m@ == "validation failed: version is required"@
    } else if blob.schema.len() == 0 {
        r matches Err(RestoreError::Blob(m)) && m@ == "validation failed: schema is required"@
    } else {
        r matches Ok((b, stage)) && stage == target && b.deep_view() == restored_view(
            blob,
            stage_rank(target) + 1,
            now,
        )
    }
}

/// What restoring `blob` to full state at clock reading `now` answers.
pub open spec fn full_restore_answer(blob: BlobV, now: u64, r: Result<Blob, RestoreError>) -> bool {
    if blob.version.len() == 0 {
        r matches Err(RestoreError::Blob(m)) && m@ == "validation failed: version is required"@
    } else if blob.schema.len() == 0 {
        r matches Err(RestoreError::Blob(m)) && m@ == "validation failed: schema is required"@
    } else {
        r matches Ok(b) && b.deep_view() == restored_view(blob, 4, now)
    }
}

impl RestoreStage {
    /// All stages, in restoration order.
    pub const ALL: [RestoreStage; 4] = [
        RestoreStage::Shell,
        RestoreStage::Structure,
        RestoreStage::Interactivity,
        RestoreStage::FullState,
    ];

    /// Human-readable name.
    pub fn name(&self) -> (r: &'static str)
        ensures
            r@ == stage_name(*self),
    {
        match self {
            RestoreStage::Shell => "shell",
            RestoreStage::Structure => "structure",
            RestoreStage::Interactivity => "interactivity",
            RestoreStage::FullState => "full_state",
        }
    }

    /// Position in restoration order.
    pub fn rank(&self) -> (r: u8)
        ensures
            r == stage_rank(*self),
    {
        match self {
            RestoreStage::Shell => 0,
            RestoreStage::Structure => 1,
            RestoreStage::Interactivity => 2,
            RestoreStage::FullState => 3,
        }
    }

    /// The stage at a position in restoration order.
    pub fn at(i: u8) -> (r: RestoreStage)
        requires
            i < 4,
        ensures
            r == stage_at(i as nat),
            stage_rank(r) == i,
    {
        if i == 0 {
            RestoreStage::Shell
        } else if i == 1 {
            RestoreStage::Structure
        } else if i == 2 {
            RestoreStage::Interactivity
        } else {
            RestoreStage::FullState
        }
    }
}

/// Law: the stages are in a strict order, the one `ALL` lists.
pub proof fn law_stage_order()
    ensures
        forall|i: nat| i < 4 ==> stage_rank(#[trigger] stage_at(i)) == i,
        forall|s: RestoreStage| stage_at(#[trigger] stage_rank(s)) == s,
        stage_rank(RestoreStage::Shell) < stage_rank(RestoreStage::Structure),
        stage_rank(RestoreStage::Structure) < stage_rank(RestoreStage::Interactivity),
        stage_rank(RestoreStage::Interactivity) < stage_rank(RestoreStage::FullState),
{
}

/// Errors that can occur during restoration.
#[derive(Debug, Clone, PartialEq)]
pub enum RestoreError {
    StageFailed { stage: RestoreStage, reason: String },
    Blob(String),
}

impl RestoreError {
    /// The error for a blob error: its message.
    pub fn from_blob_error(e: BlobError) -> (r: RestoreError)
        ensures
            r matches RestoreError::Blob(m) && m@ == blob_error_text(e),
    {
        RestoreError::Blob(e.message())
    }
}

impl vstd::std_specs::convert::FromSpecImpl<BlobError> for RestoreError {
    open spec fn obeys_from_spec() -> bool {
        false
    }

    /// The message is a `String` built at run time; the contract of `from`
    /// states it, so no spec-level value is given here.
    open spec fn from_spec(v: BlobError) -> Self {
        RestoreError::Blob(vstd::pervasive::arbitrary())
    }
}

impl From<BlobError> for RestoreError {
    /// A blob error becomes `RestoreError::Blob` with the blob error's message.
    fn from(e: BlobError) -> (r: Self)
        ensures
            r matches RestoreError::Blob(m) && m@ == blob_error_text(e),
    {
        RestoreError::from_blob_error(e)
    }
}

/// A progressive restore orchestrator: restores a blob stage by stage up to
/// a target stage.
pub struct RestoreOrchestrator {
    current_stage: RestoreStage,
    target_stage: RestoreStage,
}

impl RestoreOrchestrator {
    /// The stage most recently reached.
    pub closed spec fn current(&self) -> RestoreStage {
        self.current_stage
    }

    /// The stage restoration stops at.
    pub closed spec fn target(&self) -> RestoreStage {
        self.target_stage
    }

    /// Create a new orchestrator that restores up to `target_stage`.
    pub fn new(target_stage: RestoreStage) -> (r: Self)
        ensures
            r.current() == RestoreStage::Shell,
            r.target() == target_stage,
    {
        RestoreOrchestrator { current_stage: RestoreStage::Shell, target_stage }
    }

    /// Restore a single stage at clock reading `now`: a child of `blob`
    /// whose payload records the stage (when it is an object).
    fn restore_stage_at(&self, blob: &Blob, stage: RestoreStage, now: u64) -> (r: Result<Blob, RestoreError>)
        ensures
            r is Ok,
            r->Ok_0.deep_view() == stage_view(blob.deep_view(), stage, now),
    {
        let mut stage_key = String::from_str("_restored_");
        stage_key.append(stage.name());
        let mut new_payload = blob.payload.duplicate();
        new_payload.insert(stage_key.as_str(), Json::Bool(true));
        match blob.child_at(new_payload, now) {
            Ok(b) => Ok(b),
            Err(e) => Err(RestoreError::StageFailed { stage, reason: e.message() }),
        }
    }

    /// Restore a blob progressively at clock reading `now`, stage by stage
    /// up to the target.
    ///
    /// Returns the restored blob and the highest stage reached. An invalid
    /// blob is refused with its validation message, and no stage runs.
    pub fn restore_at(&mut self, blob: &Blob, now: u64) -> (r: Result<(Blob, RestoreStage), RestoreError>)
        ensures
            final(self).target() == old(self).target(),
            restore_answer(blob.deep_view(), old(self).target(), now, r),
            r is Ok ==> final(self).current() == old(self).target(),
            r is Err ==> final(self).current() == old(self).current(),
    {
        match blob.validate() {
            Ok(()) => {},
            Err(e) => {
                proof {
                    reveal_strlit("validation failed: ");
                    reveal_strlit("version is required");
                    reveal_strlit("schema is required");
                    reveal_strlit("validation failed: version is required");
                    reveal_strlit("validation failed: schema is required");
                    assert("validation failed: "@ + "version is required"@
                        =~= "validation failed: version is required"@);
                    assert("validation failed: "@ + "schema is required"@
                        =~= "validation failed: schema is required"@);
                }
                return Err(RestoreError::from_blob_error(e));
            },
        }
        let mut current = blob.duplicate();
        let target_rank = self.target_stage.rank();
        let mut i: u8 = 0;
        while i <= target_rank
            invariant
                current.deep_view() == restored_view(blob.deep_view(), i as nat, now),
                target_rank == stage_rank(self.target_stage),
                self.target_stage == old(self).target_stage,
                i <= target_rank + 1,
                i > 0 ==> self.current_stage == stage_at((i - 1) as nat),
            decreases target_rank + 1 - i,
        {
            let stage = RestoreStage::at(i);
            current = match self.restore_stage_at(&current, stage, now) {
                Ok(b) => b,
                Err(e) => {
                    return Err(e);
                },
            };
            self.current_stage = stage;
            i = i + 1;
        }
        proof {
            assert(stage_at(stage_rank(self.target_stage)) == self.target_stage);
        }
        Ok((current, self.current_stage))
    }

    /// Restore a blob progressively, stage by stage up to the target, the
    /// new blobs stamped with the current time: the answer is
    /// `restore_answer` for some clock reading.
    pub fn restore(&mut self, blob: &Blob) -> (r: Result<(Blob, RestoreStage), RestoreError>)
        ensures
            final(self).target() == old(self).target(),
            exists|now: u64| restore_answer(blob.deep_view(), old(self).target(), now, r),
            r is Ok ==> final(self).current() == old(self).target(),
            r is Err ==> final(self).current() == old(self).current(),
    {
        self.restore_at(blob, clock_seconds())
    }
}

/// Restore a blob to full state at clock reading `now`, as an orchestrator
/// that targets `FullState` does.
pub fn restore_at(blob: &Blob, now: u64) -> (r: Result<Blob, RestoreError>)
    ensures
        full_restore_answer(blob.deep_view(), now, r),
{
    let mut orch = RestoreOrchestrator::new(RestoreStage::FullState);
    match orch.restore_at(blob, now) {
        Ok((b, _)) => Ok(b),
        Err(e) => Err(e),
    }
}

/// Convenience: restore a blob to full state, the new blobs stamped with
/// the current time: the answer is `full_restore_answer` for some clock
/// reading.
pub fn restore(blob: &Blob) -> (r: Result<Blob, RestoreError>)
    ensures
        exists|now: u64| full_restore_answer(blob.deep_view(), now, r),
{
    restore_at(blob, clock_seconds())
}

/// Law: restoring to full state is what an orchestrator that targets
/// `FullState` does, at the same clock reading: both refuse the same blobs
/// with the same message, and otherwise give the same blob.
pub proof fn law_restore_is_full_orchestration(
    blob: BlobV,
    now: u64,
    r1: Result<Blob, RestoreError>,
    r2: Result<(Blob, RestoreStage), RestoreError>,
)
    requires
        full_restore_answer(blob, now, r1),
        restore_answer(blob, RestoreStage::FullState, now, r2),
    ensures
        r1 is Ok <==> r2 is Ok,
        r1 matches Ok(b1) ==> r2 matches Ok((b2, s)) && s == RestoreStage::FullState && b1.deep_view()
            == b2.deep_view(),
        r1 matches Err(RestoreError::Blob(m1)) ==> r2 matches Err(RestoreError::Blob(m2)) && m1@ == m2@,
        r1 is Err ==> r1 matches Err(RestoreError::Blob(_)),
{
}

/// Law: the blob that restoring the first `n` stages makes (`n` at least
/// one) is a current-version, unsealed blob of the same schema with a
/// parent, whose payload has each of those stages recorded.
pub proof fn law_restored_blob_shape(b: BlobV, n: nat, now: u64)
    ensures
        restored_view(b, n, now).schema == b.schema,
        restored_view(b, n, now).payload == marked_payload(b.payload, n),
        n > 0 ==> {
            &&& restored_view(b, n, now).version == BLOB_VERSION@
            &&& restored_view(b, n, now).timestamp == timestamp_text(now)
            &&& restored_view(b, n, now).seal is None
            &&& restored_view(b, n, now).parent is Some
        },
    decreases n,
{
    if n > 0 {
        law_restored_blob_shape(b, (n - 1) as nat, now);
    }
}

/// Law: after restoring to a target, every stage up to the target has
/// recorded itself in an object payload, and every later stage's member is
/// as it was before.
pub proof fn law_restore_marks_reached_stages(p: JsonV, target: RestoreStage, s: RestoreStage)
    requires
        p is Object,
    ensures
        stage_rank(s) <= stage_rank(target) ==> get_spec(
            marked_payload(p, stage_rank(target) + 1),
            stage_key(s),
        ) == Some(JsonV::Bool(true)),
        stage_rank(s) > stage_rank(target) ==> get_spec(
            marked_payload(p, stage_rank(target) + 1),
            stage_key(s),
        ) == get_spec(p, stage_key(s)),
{
    lemma_marks(p, stage_rank(target) + 1, s);
}

proof fn lemma_stage_keys_distinct(a: RestoreStage, b: RestoreStage)
    ensures
        a != b ==> stage_key(a) != stage_key(b),
{
    reveal_strlit("shell");
    reveal_strlit("structure");
    reveal_strlit("interactivity");
    reveal_strlit("full_state");
    reveal_strlit("_restored_");
    if a != b && stage_key(a) == stage_key(b) {
        assert(stage_key(a).len() == stage_key(b).len());
        assert(stage_name(a) =~= stage_key(a).subrange(10, stage_key(a).len() as int));
        assert(stage_name(b) =~= stage_key(b).subrange(10, stage_key(b).len() as int));
        assert(stage_name(a)[1] != stage_name(b)[1] || stage_name(a).len() != stage_name(b).len());
    }
}

proof fn lemma_marks(p: JsonV, n: nat, s: RestoreStage)
    requires
        p is Object,
        n <= 4,
    ensures
        marked_payload(p, n) is Object,
        stage_rank(s) < n ==> get_spec(marked_payload(p, n), stage_key(s)) == Some(JsonV::Bool(true)),
        stage_rank(s) >= n ==> get_spec(marked_payload(p, n), stage_key(s)) == get_spec(p, stage_key(s)),
    decreases n,
{
    if n > 0 {
        let m = (n - 1) as nat;
        lemma_marks(p, m, s);
        let prev = marked_payload(p, m);
        let t = stage_at(m);
        law_insert_then_get(prev, stage_key(t), JsonV::Bool(true), stage_key(s));
        lemma_stage_keys_distinct(t, s);
        if stage_rank(s) == m {
            assert(s == t);
        }
    }
}

/// Law: restoring further only adds: every member recorded when restoring to
/// a lower target is also there when restoring to a higher one.
pub proof fn law_restore_is_monotone(p: JsonV, lower: RestoreStage, higher: RestoreStage, s: RestoreStage)
    requires
        p is Object,
        stage_rank(lower) <= stage_rank(higher),
        get_spec(marked_payload(p, stage_rank(lower) + 1), stage_key(s)) == Some(JsonV::Bool(true)),
    ensures
        get_spec(marked_payload(p, stage_rank(higher) + 1), stage_key(s)) == Some(JsonV::Bool(true)),
{
    lemma_marks(p, stage_rank(lower) + 1, s);
    lemma_marks(p, stage_rank(higher) + 1, s);
}

/// `k` is the member of one of the first `n` stages.
pub open spec fn is_stage_key_below(k: Seq<char>, n: nat) -> bool {
    exists|i: nat| i < n && #[trigger] stage_key(stage_at(i)) == k
}

proof fn lemma_marked_member(p: JsonV, n: nat, k: Seq<char>)
    requires
        p is Object,
    ensures
        marked_payload(p, n) is Object,
        get_spec(marked_payload(p, n), k) == if is_stage_key_below(k, n) {
            Some(JsonV::Bool(true))
        } else {
            get_spec(p, k)
        },
    decreases n,
{
    if n > 0 {
        let m = (n - 1) as nat;
        lemma_marked_member(p, m, k);
        let prev = marked_payload(p, m);
        law_insert_then_get(prev, stage_key(stage_at(m)), JsonV::Bool(true), k);
        if is_stage_key_below(k, m) {
            let i = choose|i: nat| i < m && #[trigger] stage_key(stage_at(i)) == k;
            assert(i < n && stage_key(stage_at(i)) == k);
        }
        if is_stage_key_below(k, n) && !is_stage_key_below(k, m) {
            let i = choose|i: nat| i < n && #[trigger] stage_key(stage_at(i)) == k;
            assert(i == m);
        }
        if stage_key(stage_at(m)) == k {
            assert(is_stage_key_below(k, n));
        }
    }
}

/// Law: restoring further never removes a member: a member that restoring to
/// a lower target leaves in an object payload is there after restoring to a
/// higher one, and a member that no stage records keeps its value whatever
/// the target.
pub proof fn law_restore_keeps_members(p: JsonV, lower: RestoreStage, higher: RestoreStage, k: Seq<char>)
    requires
        p is Object,
        stage_rank(lower) <= stage_rank(higher),
    ensures
        get_spec(marked_payload(p, stage_rank(lower) + 1), k) is Some ==> get_spec(
            marked_payload(p, stage_rank(higher) + 1),
            k,
        ) is Some,
        (forall|s: RestoreStage| stage_key(s) != k) ==> get_spec(
            marked_payload(p, stage_rank(higher) + 1),
            k,
        ) == get_spec(p, k),
{
    let lo = stage_rank(lower) + 1;
    let hi = stage_rank(higher) + 1;
    lemma_marked_member(p, lo, k);
    lemma_marked_member(p, hi, k);
    if is_stage_key_below(k, lo) {
        let i = choose|i: nat| i < lo && #[trigger] stage_key(stage_at(i)) == k;
        assert(i < hi && stage_key(stage_at(i)) == k);
    }
    if is_stage_key_below(k, hi) {
        let i = choose|i: nat| i < hi && #[trigger] stage_key(stage_at(i)) == k;
        assert(stage_key(stage_at(i)) == k);
    }
}

} // verus!
