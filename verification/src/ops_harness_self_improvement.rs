//! The coding agent's side of the ops harness self-improvement hook: the
//! runner, the self-modification settings it uses, the identifiers and result
//! keys it records, and the contract it seeds a proposal's mission with. The
//! mission store, the gateway and the files are the caller's.
use vstd::prelude::*;

use crate::self_modification_runtime::{SelfModificationConfig, is_default_config};
use crate::text::{
    append_chars, append_str, chars_of, decimal, decimal_chars, lower_all, lower_chars, str_eq, string_of,
    string_views, trim, trim_chars,
};

verus! {

/// Runs harness self-improvement proposals against one workspace.
#[derive(Debug, Clone)]
pub struct CodingAgentOpsHarnessSelfImprovementRunner {
    pub workspace_root: String,
}

impl CodingAgentOpsHarnessSelfImprovementRunner {
    pub fn new(workspace_root: String) -> (r: Self)
        ensures
            r.workspace_root == workspace_root,
    {
        CodingAgentOpsHarnessSelfImprovementRunner { workspace_root }
    }

    /// The runner's self-modification settings.
    pub fn config(&self) -> (c: SelfModificationConfig)
        ensures
            c.workspace_root@ == self.workspace_root@,
            c.enabled && c.auto_apply_skills && !c.auto_apply_config && !c.auto_apply_source,
    {
        self_modification_config(self.workspace_root.as_str())
    }
}

/// The default self-modification settings rooted at `workspace_root`.
pub fn self_modification_config(workspace_root: &str) -> (c: SelfModificationConfig)
    ensures
        c.workspace_root@ == workspace_root@,
        c.enabled,
        c.auto_apply_skills,
        !c.auto_apply_config,
        !c.auto_apply_source,
{
    let d = SelfModificationConfig::default();
    assert(is_default_config(d));
    SelfModificationConfig { workspace_root: String::from_str(workspace_root), ..d }
}

/// The result key of a dry-run: `passed` when the policy allowed the target.
pub fn dry_run_result_key(allowed: bool) -> (s: &'static str)
    ensures
        s@ == if allowed { "passed"@ } else { "failed"@ },
{
    if allowed {
        "passed"
    } else {
        "failed"
    }
}

/// `curator-<proposal id in ASCII lower case>`.
pub fn curator_memory_record_id(proposal_id: &str) -> (s: String)
    ensures
        s@ == "curator-"@ + lower_all(proposal_id@),
{
    let mut out = chars_of("curator-");
    append_chars(&mut out, &lower_chars(&chars_of(proposal_id)));
    string_of(&out)
}

/// `approval-<proposal id>-<requested time>`.
pub fn operator_approval_id(proposal_id: &str, requested_unix_ms: u64) -> (s: String)
    ensures
        s@ == "approval-"@ + proposal_id@ + "-"@ + decimal(requested_unix_ms as nat),
{
    let mut out = chars_of("approval-");
    append_str(&mut out, proposal_id);
    append_str(&mut out, "-");
    append_chars(&mut out, &decimal_chars(requested_unix_ms));
    string_of(&out)
}

// ---------------------------------------------------------------------------
// The mission contract of a harness proposal
// ---------------------------------------------------------------------------

/// Entries keyed by an id, in order.
pub open spec fn has_id<R>(v: Seq<(Seq<char>, R)>, k: Seq<char>) -> bool {
    exists|i: int| 0 <= i < v.len() && v[i].0 == k
}

/// `i` is the first entry with id `k`.
pub open spec fn first_at<R>(v: Seq<(Seq<char>, R)>, k: Seq<char>, i: int) -> bool {
    &&& 0 <= i < v.len()
    &&& v[i].0 == k
    &&& forall|j: int| 0 <= j < i ==> v[j].0 != k
}

pub open spec fn first_index<R>(v: Seq<(Seq<char>, R)>, k: Seq<char>) -> int {
    choose|i: int| first_at(v, k, i)
}

/// Inserts `e`, or replaces the first entry with its id when `replace` holds
/// of that entry (and keeps it otherwise).
pub open spec fn upsert_when<R>(v: Seq<(Seq<char>, R)>, e: (Seq<char>, R), replace: spec_fn(R) -> bool) -> Seq<
    (Seq<char>, R),
> {
    if has_id(v, e.0) {
        let i = first_index(v, e.0);
        if replace(v[i].1) {
            v.update(i, e)
        } else {
            v
        }
    } else {
        v.push(e)
    }
}

/// The entry with `e`'s id is in place: it is `e`, or one that may not be replaced.
pub open spec fn settled<R>(v: Seq<(Seq<char>, R)>, e: (Seq<char>, R), replace: spec_fn(R) -> bool) -> bool {
    has_id(v, e.0) && (v[first_index(v, e.0)].1 == e.1 || !replace(v[first_index(v, e.0)].1))
}

proof fn lemma_first_exists<R>(v: Seq<(Seq<char>, R)>, k: Seq<char>, i: int)
    requires
        0 <= i < v.len(),
        v[i].0 == k,
    ensures
        first_at(v, k, first_index(v, k)),
    decreases i,
{
    if exists|j: int| 0 <= j < i && v[j].0 == k {
        let j = choose|j: int| 0 <= j < i && v[j].0 == k;
        lemma_first_exists(v, k, j);
    } else {
        assert(first_at(v, k, i));
    }
}

proof fn lemma_first_unique<R>(v: Seq<(Seq<char>, R)>, k: Seq<char>, i: int, j: int)
    requires
        first_at(v, k, i),
        first_at(v, k, j),
    ensures
        i == j,
{
}

proof fn lemma_first_of<R>(v: Seq<(Seq<char>, R)>, k: Seq<char>, i: int)
    requires
        first_at(v, k, i),
    ensures
        first_index(v, k) == i,
        has_id(v, k),
{
    lemma_first_exists(v, k, i);
    lemma_first_unique(v, k, i, first_index(v, k));
}

/// After an upsert, the entry is in place.
proof fn lemma_upsert_settles<R>(v: Seq<(Seq<char>, R)>, e: (Seq<char>, R), replace: spec_fn(R) -> bool)
    ensures
        settled(upsert_when(v, e, replace), e, replace),
{
    let u = upsert_when(v, e, replace);
    if has_id(v, e.0) {
        let i0 = choose|i: int| 0 <= i < v.len() && v[i].0 == e.0;
        lemma_first_exists(v, e.0, i0);
        let i = first_index(v, e.0);
        assert(first_at(u, e.0, i));
        lemma_first_of(u, e.0, i);
    } else {
        assert(first_at(u, e.0, v.len() as int));
        lemma_first_of(u, e.0, v.len() as int);
    }
}

/// An upsert of an entry already in place changes nothing.
proof fn lemma_upsert_settled_noop<R>(v: Seq<(Seq<char>, R)>, e: (Seq<char>, R), replace: spec_fn(R) -> bool)
    requires
        settled(v, e, replace),
    ensures
        upsert_when(v, e, replace) == v,
{
    let i = first_index(v, e.0);
    let i0 = choose|i: int| 0 <= i < v.len() && v[i].0 == e.0;
    lemma_first_exists(v, e.0, i0);
    if replace(v[i].1) {
        assert(v[i] == e);
        assert(v.update(i, e) =~= v);
    }
}

/// An upsert under another id leaves an entry in place.
proof fn lemma_upsert_keeps_settled<R>(
    v: Seq<(Seq<char>, R)>,
    e: (Seq<char>, R),
    replace: spec_fn(R) -> bool,
    e2: (Seq<char>, R),
    replace2: spec_fn(R) -> bool,
)
    requires
        settled(v, e, replace),
        e2.0 != e.0,
    ensures
        settled(upsert_when(v, e2, replace2), e, replace),
{
    let i0 = choose|i: int| 0 <= i < v.len() && v[i].0 == e.0;
    lemma_first_exists(v, e.0, i0);
    let i = first_index(v, e.0);
    let u = upsert_when(v, e2, replace2);
    if has_id(v, e2.0) {
        let w0 = choose|w: int| 0 <= w < v.len() && v[w].0 == e2.0;
        lemma_first_exists(v, e2.0, w0);
    }
    assert(u.len() >= v.len());
    assert(u[i] == v[i]);
    assert(first_at(u, e.0, i));
    lemma_first_of(u, e.0, i);
}

/// An upsert drops nothing: every earlier entry stays where it was, or was
/// replaced by `e` under its own id where `replace` allowed it.
proof fn lemma_upsert_keeps<R>(v: Seq<(Seq<char>, R)>, e: (Seq<char>, R), replace: spec_fn(R) -> bool)
    ensures
        upsert_when(v, e, replace).len() >= v.len(),
        forall|i: int|
            0 <= i < v.len() ==> #[trigger] upsert_when(v, e, replace)[i] == v[i] || (v[i].0 == e.0
                && replace(v[i].1) && upsert_when(v, e, replace)[i] == e),
{
    if has_id(v, e.0) {
        let i0 = choose|i: int| 0 <= i < v.len() && v[i].0 == e.0;
        lemma_first_exists(v, e.0, i0);
    }
}

/// A proposal of the ops harness, as its mission contract reads it.
#[derive(Debug, Clone)]
pub struct HarnessProposalSpec {
    pub proposal_id: String,
    pub source_learning_record_id: String,
    pub failure_summary: String,
    pub root_cause: String,
    pub rollback_plan: String,
}

#[derive(Debug, Clone)]
pub struct LearningRecordModel {
    pub record_id: String,
    pub summary: String,
    pub root_cause: Option<String>,
    pub rollback_plan: Option<String>,
    pub created_unix_ms: u64,
}

#[derive(Debug, Clone)]
pub struct AcceptanceCriterionModel {
    pub id: String,
    pub description: String,
    pub verification_gate_ids: Vec<String>,
}

#[derive(Debug, Clone)]
pub struct PlanNodeModel {
    pub id: String,
    pub description: String,
    pub depends_on: Vec<String>,
    pub status: String,
}

#[derive(Debug, Clone)]
pub struct MemoryHitModel {
    pub key: String,
    pub summary: String,
    pub source_event_key: Option<String>,
}

#[derive(Debug, Clone)]
pub struct MemoryRecallModel {
    pub query: String,
    pub checked_unix_ms: u64,
    pub hit_keys: Vec<String>,
}

#[derive(Debug, Clone)]
pub struct VerificationGateModel {
    pub id: String,
    pub description: String,
    /// The verifier's status, once a verdict was recorded.
    pub status: Option<String>,
}

#[derive(Debug, Clone)]
pub struct CheckpointModel {
    pub checkpoint_id: String,
    pub summary: String,
    pub created_unix_ms: u64,
}

/// What the harness contract reads and writes of a mission.
#[derive(Debug, Clone)]
pub struct HarnessMissionModel {
    pub learning_records: Vec<LearningRecordModel>,
    pub acceptance_criteria: Vec<AcceptanceCriterionModel>,
    pub plan_dag: Vec<PlanNodeModel>,
    pub allowed_tools: Vec<String>,
    pub max_tool_calls: Option<u64>,
    pub memory_hits: Vec<MemoryHitModel>,
    pub memory_recall: Option<MemoryRecallModel>,
    pub verification_gates: Vec<VerificationGateModel>,
    pub checkpoints: Vec<CheckpointModel>,
    pub updated_unix_ms: u64,
}

pub open spec fn opt_seq(o: Option<String>) -> Option<Seq<char>> {
    match o {
        Some(s) => Some(s@),
        None => None,
    }
}

pub open spec fn learning_view(r: LearningRecordModel) -> (
    Seq<char>,
    (Seq<char>, Option<Seq<char>>, Option<Seq<char>>, u64),
) {
    (r.record_id@, (r.summary@, opt_seq(r.root_cause), opt_seq(r.rollback_plan), r.created_unix_ms))
}

pub open spec fn criterion_view(c: AcceptanceCriterionModel) -> (Seq<char>, (Seq<char>, Seq<Seq<char>>)) {
    (c.id@, (c.description@, string_views(c.verification_gate_ids@)))
}

pub open spec fn plan_view(n: PlanNodeModel) -> (Seq<char>, (Seq<char>, Seq<Seq<char>>, Seq<char>)) {
    (n.id@, (n.description@, string_views(n.depends_on@), n.status@))
}

pub open spec fn memory_view(h: MemoryHitModel) -> (Seq<char>, (Seq<char>, Option<Seq<char>>)) {
    (h.key@, (h.summary@, opt_seq(h.source_event_key)))
}

pub open spec fn gate_view(g: VerificationGateModel) -> (Seq<char>, (Seq<char>, Option<Seq<char>>)) {
    (g.id@, (g.description@, opt_seq(g.status)))
}

pub open spec fn checkpoint_view(c: CheckpointModel) -> (Seq<char>, (Seq<char>, u64)) {
    (c.checkpoint_id@, (c.summary@, c.created_unix_ms))
}

pub open spec fn recall_view(r: Option<MemoryRecallModel>) -> Option<(Seq<char>, u64, Seq<Seq<char>>)> {
    match r {
        Some(m) => Some((m.query@, m.checked_unix_ms, string_views(m.hit_keys@))),
        None => None,
    }
}

/// A mission as the harness contract sees it.
pub struct HarnessMissionView {
    pub learning: Seq<(Seq<char>, (Seq<char>, Option<Seq<char>>, Option<Seq<char>>, u64))>,
    pub criteria: Seq<(Seq<char>, (Seq<char>, Seq<Seq<char>>))>,
    pub plan: Seq<(Seq<char>, (Seq<char>, Seq<Seq<char>>, Seq<char>))>,
    pub tools: Seq<Seq<char>>,
    pub max_tool_calls: Option<u64>,
    pub memory: Seq<(Seq<char>, (Seq<char>, Option<Seq<char>>))>,
    pub recall: Option<(Seq<char>, u64, Seq<Seq<char>>)>,
    pub gates: Seq<(Seq<char>, (Seq<char>, Option<Seq<char>>))>,
    pub checkpoints: Seq<(Seq<char>, (Seq<char>, u64))>,
    pub updated: u64,
}

pub open spec fn mission_view(m: HarnessMissionModel) -> HarnessMissionView {
    HarnessMissionView {
        learning: m.learning_records@.map_values(|r: LearningRecordModel| learning_view(r)),
        criteria: m.acceptance_criteria@.map_values(|c: AcceptanceCriterionModel| criterion_view(c)),
        plan: m.plan_dag@.map_values(|n: PlanNodeModel| plan_view(n)),
        tools: string_views(m.allowed_tools@),
        max_tool_calls: m.max_tool_calls,
        memory: m.memory_hits@.map_values(|h: MemoryHitModel| memory_view(h)),
        recall: recall_view(m.memory_recall),
        gates: m.verification_gates@.map_values(|g: VerificationGateModel| gate_view(g)),
        checkpoints: m.checkpoints@.map_values(|c: CheckpointModel| checkpoint_view(c)),
        updated: m.updated_unix_ms,
    }
}

/// A plan node may be reseeded while it is blank or `pending`.
pub open spec fn plan_pending(r: (Seq<char>, Seq<Seq<char>>, Seq<char>)) -> bool {
    trim(r.2).len() == 0 || r.2 == "pending"@
}

pub open spec fn gate_unset(r: (Seq<char>, Option<Seq<char>>)) -> bool {
    r.1 is None
}

pub open spec fn criterion_replace() -> spec_fn((Seq<char>, Seq<Seq<char>>)) -> bool {
    |r: (Seq<char>, Seq<Seq<char>>)| true
}

pub open spec fn plan_replace() -> spec_fn((Seq<char>, Seq<Seq<char>>, Seq<char>)) -> bool {
    |r: (Seq<char>, Seq<Seq<char>>, Seq<char>)| plan_pending(r)
}

pub open spec fn gate_replace() -> spec_fn((Seq<char>, Option<Seq<char>>)) -> bool {
    |r: (Seq<char>, Option<Seq<char>>)| gate_unset(r)
}

pub open spec fn sat_sub(a: u64, b: u64) -> u64 {
    if a >= b {
        (a - b) as u64
    } else {
        0
    }
}

pub open spec fn criterion_seed(k: int) -> (Seq<char>, (Seq<char>, Seq<Seq<char>>)) {
    if k == 0 {
        ("AC-1"@, ("Conservative dry-run must pass before apply."@, seq!["VG-DRY-RUN"@]))
    } else if k == 1 {
        ("AC-2"@, ("Operator approval must be recorded before apply."@, seq!["VG-APPROVAL"@]))
    } else {
        (
            "AC-3"@,
            ("Approved skill/config/prompt target must be applied and curated."@, seq!["VG-APPLY"@]),
        )
    }
}

pub open spec fn plan_seed(k: int) -> (Seq<char>, (Seq<char>, Seq<Seq<char>>, Seq<char>)) {
    if k == 0 {
        (
            "observe-failure"@,
            ("Record failure learning from the harness observation."@, seq![], "completed"@),
        )
    } else if k == 1 {
        (
            "dry-run"@,
            (
                "Dry-run the conservative proposal against the safety policy."@,
                seq!["observe-failure"@],
                "pending"@,
            ),
        )
    } else if k == 2 {
        (
            "operator-approval"@,
            ("Record operator approval for the proposed change."@, seq!["dry-run"@], "pending"@),
        )
    } else if k == 3 {
        (
            "apply-update"@,
            (
                "Apply the approved target update with rollback metadata."@,
                seq!["operator-approval"@],
                "pending"@,
            ),
        )
    } else {
        (
            "curate-learning"@,
            ("Update the curator record after successful apply."@, seq!["apply-update"@], "pending"@),
        )
    }
}

pub open spec fn gate_seed(k: int) -> (Seq<char>, (Seq<char>, Option<Seq<char>>)) {
    if k == 0 {
        ("VG-DRY-RUN"@, ("Self-modification dry-run passes safety policy."@, None))
    } else if k == 1 {
        ("VG-APPROVAL"@, ("Operator approval is present before apply."@, None))
    } else {
        ("VG-APPLY"@, ("Target update is applied and curator state is updated."@, None))
    }
}

pub open spec fn seeded_criteria(v: Seq<(Seq<char>, (Seq<char>, Seq<Seq<char>>))>) -> Seq<
    (Seq<char>, (Seq<char>, Seq<Seq<char>>)),
> {
    let a = criterion_replace();
    upsert_when(upsert_when(upsert_when(v, criterion_seed(0), a), criterion_seed(1), a), criterion_seed(2), a)
}

pub open spec fn seeded_plan(v: Seq<(Seq<char>, (Seq<char>, Seq<Seq<char>>, Seq<char>))>) -> Seq<
    (Seq<char>, (Seq<char>, Seq<Seq<char>>, Seq<char>)),
> {
    let p = plan_replace();
    upsert_when(
        upsert_when(
            upsert_when(upsert_when(upsert_when(v, plan_seed(0), p), plan_seed(1), p), plan_seed(2), p),
            plan_seed(3),
            p,
        ),
        plan_seed(4),
        p,
    )
}

pub open spec fn seeded_gates(v: Seq<(Seq<char>, (Seq<char>, Option<Seq<char>>))>) -> Seq<
    (Seq<char>, (Seq<char>, Option<Seq<char>>)),
> {
    let g = gate_replace();
    upsert_when(upsert_when(upsert_when(v, gate_seed(0), g), gate_seed(1), g), gate_seed(2), g)
}

pub open spec fn harness_tools() -> Seq<Seq<char>> {
    seq!["self_modification.dry_run"@, "self_modification.apply"@, "mission_state.write"@]
}

/// What the contract makes of a mission: the proposal's failure record, the
/// three acceptance criteria, the five plan nodes (blank or pending ones
/// reseeded), the tool budget when none is set, the memory hit and recall,
/// the three verification gates (those without a verdict reseeded), a first
/// checkpoint, and the update time.
pub open spec fn contract_view(
    m: HarnessMissionView,
    unix_ms: u64,
    proposal_id: Seq<char>,
    source_id: Seq<char>,
    failure_summary: Seq<char>,
    root_cause: Seq<char>,
    rollback_plan: Seq<char>,
) -> HarnessMissionView {
    HarnessMissionView {
        learning: if has_id(m.learning, source_id) {
            m.learning
        } else {
            m.learning.push(
                (
                    source_id,
                    (failure_summary, Some(root_cause), Some(rollback_plan), sat_sub(unix_ms, 5)),
                ),
            )
        },
        criteria: seeded_criteria(m.criteria),
        plan: seeded_plan(m.plan),
        tools: if m.tools.len() == 0 {
            harness_tools()
        } else {
            m.tools
        },
        max_tool_calls: if m.tools.len() == 0 {
            Some(12)
        } else {
            m.max_tool_calls
        },
        memory: if has_id(m.memory, source_id) {
            m.memory
        } else {
            m.memory.push((source_id, (failure_summary, Some(proposal_id))))
        },
        recall: if m.recall is None {
            Some(("self-improvement learning for "@ + proposal_id, unix_ms, seq![source_id]))
        } else {
            m.recall
        },
        gates: seeded_gates(m.gates),
        checkpoints: if m.checkpoints.len() == 0 {
            seq![("checkpoint-"@ + proposal_id + "-observed"@, (failure_summary, sat_sub(unix_ms, 1)))]
        } else {
            m.checkpoints
        },
        updated: if m.updated >= unix_ms {
            m.updated
        } else {
            unix_ms
        },
    }
}

fn upsert_criterion(v: &mut Vec<AcceptanceCriterionModel>, c: AcceptanceCriterionModel)
    ensures
        final(v)@.map_values(|x: AcceptanceCriterionModel| criterion_view(x)) == upsert_when(
            old(v)@.map_values(|x: AcceptanceCriterionModel| criterion_view(x)),
            criterion_view(c),
            criterion_replace(),
        ),
{
    let ghost w = old(v)@.map_values(|x: AcceptanceCriterionModel| criterion_view(x));
    let mut i: usize = 0;
    while i < v.len()
        invariant
            i <= v.len(),
            *v == *old(v),
            w == v@.map_values(|x: AcceptanceCriterionModel| criterion_view(x)),
            forall|j: int| 0 <= j < i ==> w[j].0 != c.id@,
        decreases v.len() - i,
    {
        if str_eq(v[i].id.as_str(), c.id.as_str()) {
            proof {
                assert(first_at(w, c.id@, i as int));
                lemma_first_of(w, c.id@, i as int);
            }
            v.set(i, c);
            assert(v@.map_values(|x: AcceptanceCriterionModel| criterion_view(x)) =~= w.update(
                i as int,
                criterion_view(c),
            ));
            return;
        }
        i += 1;
    }
    assert(!has_id(w, c.id@));
    v.push(c);
    assert(v@.map_values(|x: AcceptanceCriterionModel| criterion_view(x)) =~= w.push(criterion_view(c)));
}

fn plan_status_pending(status: &str) -> (b: bool)
    ensures
        b == (trim(status@).len() == 0 || status@ == "pending"@),
{
    trim_chars(&chars_of(status)).len() == 0 || str_eq(status, "pending")
}

fn upsert_plan_node(v: &mut Vec<PlanNodeModel>, n: PlanNodeModel)
    ensures
        final(v)@.map_values(|x: PlanNodeModel| plan_view(x)) == upsert_when(
            old(v)@.map_values(|x: PlanNodeModel| plan_view(x)),
            plan_view(n),
            plan_replace(),
        ),
{
    let ghost w = old(v)@.map_values(|x: PlanNodeModel| plan_view(x));
    let mut i: usize = 0;
    while i < v.len()
        invariant
            i <= v.len(),
            *v == *old(v),
            w == v@.map_values(|x: PlanNodeModel| plan_view(x)),
            forall|j: int| 0 <= j < i ==> w[j].0 != n.id@,
        decreases v.len() - i,
    {
        if str_eq(v[i].id.as_str(), n.id.as_str()) {
            proof {
                assert(first_at(w, n.id@, i as int));
                lemma_first_of(w, n.id@, i as int);
            }
            if plan_status_pending(v[i].status.as_str()) {
                v.set(i, n);
                assert(v@.map_values(|x: PlanNodeModel| plan_view(x)) =~= w.update(
                    i as int,
                    plan_view(n),
                ));
            }
            return;
        }
        i += 1;
    }
    assert(!has_id(w, n.id@));
    v.push(n);
    assert(v@.map_values(|x: PlanNodeModel| plan_view(x)) =~= w.push(plan_view(n)));
}

fn upsert_gate(v: &mut Vec<VerificationGateModel>, g: VerificationGateModel)
    ensures
        final(v)@.map_values(|x: VerificationGateModel| gate_view(x)) == upsert_when(
            old(v)@.map_values(|x: VerificationGateModel| gate_view(x)),
            gate_view(g),
            gate_replace(),
        ),
{
    let ghost w = old(v)@.map_values(|x: VerificationGateModel| gate_view(x));
    let mut i: usize = 0;
    while i < v.len()
        invariant
            i <= v.len(),
            *v == *old(v),
            w == v@.map_values(|x: VerificationGateModel| gate_view(x)),
            forall|j: int| 0 <= j < i ==> w[j].0 != g.id@,
        decreases v.len() - i,
    {
        if str_eq(v[i].id.as_str(), g.id.as_str()) {
            proof {
                assert(first_at(w, g.id@, i as int));
                lemma_first_of(w, g.id@, i as int);
            }
            if v[i].status.is_none() {
                v.set(i, g);
                assert(v@.map_values(|x: VerificationGateModel| gate_view(x)) =~= w.update(
                    i as int,
                    gate_view(g),
                ));
            }
            return;
        }
        i += 1;
    }
    assert(!has_id(w, g.id@));
    v.push(g);
    assert(v@.map_values(|x: VerificationGateModel| gate_view(x)) =~= w.push(gate_view(g)));
}

fn strings_of(items: &[&str]) -> (r: Vec<String>)
    ensures
        r@.len() == items@.len(),
        forall|i: int| 0 <= i < items@.len() ==> (#[trigger] r@[i])@ == items@[i]@,
{
    let mut r: Vec<String> = Vec::new();
    let mut i: usize = 0;
    while i < items.len()
        invariant
            i <= items.len(),
            r@.len() == i,
            forall|j: int| 0 <= j < i ==> (#[trigger] r@[j])@ == items@[j]@,
        decreases items.len() - i,
    {
        r.push(String::from_str(items[i]));
        i += 1;
    }
    r
}

fn criterion(id: &str, description: &str, gate: &str) -> (c: AcceptanceCriterionModel)
    ensures
        criterion_view(c) == (id@, (description@, seq![gate@])),
{
    let gates = strings_of(&[gate]);
    let c = AcceptanceCriterionModel {
        id: String::from_str(id),
        description: String::from_str(description),
        verification_gate_ids: gates,
    };
    assert(string_views(c.verification_gate_ids@) =~= seq![gate@]);
    c
}

fn plan_node(id: &str, description: &str, depends_on: Option<&str>, status: &str) -> (n: PlanNodeModel)
    ensures
        plan_view(n) == (
            id@,
            (
                description@,
                match depends_on {
                    Some(d) => seq![d@],
                    None => seq![],
                },
                status@,
            ),
        ),
{
    let deps = match depends_on {
        Some(d) => strings_of(&[d]),
        None => Vec::new(),
    };
    let n = PlanNodeModel {
        id: String::from_str(id),
        description: String::from_str(description),
        depends_on: deps,
        status: String::from_str(status),
    };
    assert(string_views(n.depends_on@) =~= match depends_on {
        Some(d) => seq![d@],
        None => seq![],
    });
    n
}

fn gate(id: &str, description: &str) -> (g: VerificationGateModel)
    ensures
        gate_view(g) == (id@, (description@, None::<Seq<char>>)),
{
    VerificationGateModel {
        id: String::from_str(id),
        description: String::from_str(description),
        status: None,
    }
}

fn has_learning_record(v: &Vec<LearningRecordModel>, id: &str) -> (b: bool)
    ensures
        b == has_id(v@.map_values(|x: LearningRecordModel| learning_view(x)), id@),
{
    let ghost w = v@.map_values(|x: LearningRecordModel| learning_view(x));
    let mut i: usize = 0;
    while i < v.len()
        invariant
            i <= v.len(),
            w == v@.map_values(|x: LearningRecordModel| learning_view(x)),
            forall|j: int| 0 <= j < i ==> w[j].0 != id@,
        decreases v.len() - i,
    {
        if str_eq(v[i].record_id.as_str(), id) {
            assert(w[i as int].0 == id@);
            return true;
        }
        i += 1;
    }
    false
}

fn has_memory_hit(v: &Vec<MemoryHitModel>, key: &str) -> (b: bool)
    ensures
        b == has_id(v@.map_values(|x: MemoryHitModel| memory_view(x)), key@),
{
    let ghost w = v@.map_values(|x: MemoryHitModel| memory_view(x));
    let mut i: usize = 0;
    while i < v.len()
        invariant
            i <= v.len(),
            w == v@.map_values(|x: MemoryHitModel| memory_view(x)),
            forall|j: int| 0 <= j < i ==> w[j].0 != key@,
        decreases v.len() - i,
    {
        if str_eq(v[i].key.as_str(), key) {
            assert(w[i as int].0 == key@);
            return true;
        }
        i += 1;
    }
    false
}

/// Seeds the mission of a harness proposal with what the self-improvement loop
/// needs: the failure record, the acceptance criteria, the plan, a tool
/// budget, the memory evidence, the verification gates and a checkpoint.
/// What is already there is kept: a plan node past `pending` and a gate with a
/// verdict are left alone, and nothing is removed.
pub fn ensure_harness_self_improvement_contract(
    mission: &mut HarnessMissionModel,
    unix_ms: u64,
    spec: &HarnessProposalSpec,
)
    ensures
        mission_view(*final(mission)) == contract_view(
            mission_view(*old(mission)),
            unix_ms,
            spec.proposal_id@,
            spec.source_learning_record_id@,
            spec.failure_summary@,
            spec.root_cause@,
            spec.rollback_plan@,
        ),
{
    let ghost m0 = mission_view(*mission);
    let src = spec.source_learning_record_id.as_str();
    if !has_learning_record(&mission.learning_records, src) {
        let r = LearningRecordModel {
            record_id: String::from_str(src),
            summary: spec.failure_summary.clone(),
            root_cause: Some(spec.root_cause.clone()),
            rollback_plan: Some(spec.rollback_plan.clone()),
            created_unix_ms: unix_ms.saturating_sub(5),
        };
        let ghost before = mission.learning_records@;
        mission.learning_records.push(r);
        assert(mission.learning_records@.map_values(|x: LearningRecordModel| learning_view(x))
            =~= before.map_values(|x: LearningRecordModel| learning_view(x)).push(learning_view(r)));
    }
    upsert_criterion(
        &mut mission.acceptance_criteria,
        criterion("AC-1", "Conservative dry-run must pass before apply.", "VG-DRY-RUN"),
    );
    upsert_criterion(
        &mut mission.acceptance_criteria,
        criterion("AC-2", "Operator approval must be recorded before apply.", "VG-APPROVAL"),
    );
    upsert_criterion(
        &mut mission.acceptance_criteria,
        criterion(
            "AC-3",
            "Approved skill/config/prompt target must be applied and curated.",
            "VG-APPLY",
        ),
    );
    upsert_plan_node(
        &mut mission.plan_dag,
        plan_node(
            "observe-failure",
            "Record failure learning from the harness observation.",
            None,
            "completed",
        ),
    );
    upsert_plan_node(
        &mut mission.plan_dag,
        plan_node(
            "dry-run",
            "Dry-run the conservative proposal against the safety policy.",
            Some("observe-failure"),
            "pending",
        ),
    );
    upsert_plan_node(
        &mut mission.plan_dag,
        plan_node(
            "operator-approval",
            "Record operator approval for the proposed change.",
            Some("dry-run"),
            "pending",
        ),
    );
    upsert_plan_node(
        &mut mission.plan_dag,
        plan_node(
            "apply-update",
            "Apply the approved target update with rollback metadata.",
            Some("operator-approval"),
            "pending",
        ),
    );
    upsert_plan_node(
        &mut mission.plan_dag,
        plan_node(
            "curate-learning",
            "Update the curator record after successful apply.",
            Some("apply-update"),
            "pending",
        ),
    );
    if mission.allowed_tools.len() == 0 {
        mission.allowed_tools = strings_of(
            &["self_modification.dry_run", "self_modification.apply", "mission_state.write"],
        );
        mission.max_tool_calls = Some(12);
        assert(string_views(mission.allowed_tools@) =~= harness_tools());
    }
    if !has_memory_hit(&mission.memory_hits, src) {
        let h = MemoryHitModel {
            key: String::from_str(src),
            summary: spec.failure_summary.clone(),
            source_event_key: Some(spec.proposal_id.clone()),
        };
        let ghost before = mission.memory_hits@;
        mission.memory_hits.push(h);
        assert(mission.memory_hits@.map_values(|x: MemoryHitModel| memory_view(x)) =~= before.map_values(
            |x: MemoryHitModel| memory_view(x),
        ).push(memory_view(h)));
    }
    if mission.memory_recall.is_none() {
        let mut q = chars_of("self-improvement learning for ");
        append_str(&mut q, spec.proposal_id.as_str());
        let keys = strings_of(&[src]);
        assert(string_views(keys@) =~= seq![src@]);
        mission.memory_recall = Some(
            MemoryRecallModel { query: string_of(&q), checked_unix_ms: unix_ms, hit_keys: keys },
        );
    }
    upsert_gate(
        &mut mission.verification_gates,
        gate("VG-DRY-RUN", "Self-modification dry-run passes safety policy."),
    );
    upsert_gate(
        &mut mission.verification_gates,
        gate("VG-APPROVAL", "Operator approval is present before apply."),
    );
    upsert_gate(
        &mut mission.verification_gates,
        gate("VG-APPLY", "Target update is applied and curator state is updated."),
    );
    if mission.checkpoints.len() == 0 {
        let mut id = chars_of("checkpoint-");
        append_str(&mut id, spec.proposal_id.as_str());
        append_str(&mut id, "-observed");
        let c = CheckpointModel {
            checkpoint_id: string_of(&id),
            summary: spec.failure_summary.clone(),
            created_unix_ms: unix_ms.saturating_sub(1),
        };
        mission.checkpoints.push(c);
        assert(mission.checkpoints@.map_values(|x: CheckpointModel| checkpoint_view(x)) =~= seq![
            checkpoint_view(c),
        ]);
    }
    if mission.updated_unix_ms < unix_ms {
        mission.updated_unix_ms = unix_ms;
    }
    let ghost want = contract_view(
        m0,
        unix_ms,
        spec.proposal_id@,
        spec.source_learning_record_id@,
        spec.failure_summary@,
        spec.root_cause@,
        spec.rollback_plan@,
    );
    let ghost got = mission_view(*mission);
    assert(got.learning =~= want.learning);
    assert(got.criteria =~= want.criteria);
    assert(got.plan =~= want.plan);
    assert(got.tools =~= want.tools);
    assert(got.memory =~= want.memory);
    assert(got.gates =~= want.gates);
    assert(got.checkpoints =~= want.checkpoints);
    assert(got.recall == want.recall);
}

/// `u` keeps every entry of `v` in place under its id, changed only where
/// `replace` allowed it.
pub open spec fn keeps_entries<R>(v: Seq<(Seq<char>, R)>, u: Seq<(Seq<char>, R)>, replace: spec_fn(R) -> bool) -> bool {
    &&& u.len() >= v.len()
    &&& forall|i: int|
        0 <= i < v.len() ==> (#[trigger] u[i]).0 == v[i].0 && (replace(v[i].1) || u[i] == v[i])
}

proof fn lemma_upsert_keeps_entries<R>(v: Seq<(Seq<char>, R)>, e: (Seq<char>, R), replace: spec_fn(R) -> bool)
    ensures
        keeps_entries(v, upsert_when(v, e, replace), replace),
{
    lemma_upsert_keeps(v, e, replace);
    let u = upsert_when(v, e, replace);
    assert forall|i: int| 0 <= i < v.len() implies (#[trigger] u[i]).0 == v[i].0 && (replace(
        v[i].1,
    ) || u[i] == v[i]) by {
        assert(u[i] == v[i] || (v[i].0 == e.0 && replace(v[i].1) && u[i] == e));
    }
}

proof fn lemma_keeps_entries_trans<R>(
    v: Seq<(Seq<char>, R)>,
    u: Seq<(Seq<char>, R)>,
    w: Seq<(Seq<char>, R)>,
    replace: spec_fn(R) -> bool,
)
    requires
        keeps_entries(v, u, replace),
        keeps_entries(u, w, replace),
    ensures
        keeps_entries(v, w, replace),
{
    assert forall|i: int| 0 <= i < v.len() implies (#[trigger] w[i]).0 == v[i].0 && (replace(
        v[i].1,
    ) || w[i] == v[i]) by {
        assert(u[i].0 == v[i].0);
        assert(w[i].0 == u[i].0);
    }
}

/// Three upserts under distinct ids settle all three; repeating them changes nothing.
proof fn lemma_three_upserts<R>(
    v: Seq<(Seq<char>, R)>,
    e0: (Seq<char>, R),
    e1: (Seq<char>, R),
    e2: (Seq<char>, R),
    rep: spec_fn(R) -> bool,
)
    requires
        e0.0 != e1.0,
        e0.0 != e2.0,
        e1.0 != e2.0,
    ensures
        ({
            let u = upsert_when(upsert_when(upsert_when(v, e0, rep), e1, rep), e2, rep);
            &&& upsert_when(upsert_when(upsert_when(u, e0, rep), e1, rep), e2, rep) == u
            &&& has_id(u, e0.0) && has_id(u, e1.0) && has_id(u, e2.0)
            &&& keeps_entries(v, u, rep)
        }),
{
    let u1 = upsert_when(v, e0, rep);
    let u2 = upsert_when(u1, e1, rep);
    let u = upsert_when(u2, e2, rep);
    lemma_upsert_settles(v, e0, rep);
    lemma_upsert_keeps_settled(u1, e0, rep, e1, rep);
    lemma_upsert_keeps_settled(u2, e0, rep, e2, rep);
    lemma_upsert_settles(u1, e1, rep);
    lemma_upsert_keeps_settled(u2, e1, rep, e2, rep);
    lemma_upsert_settles(u2, e2, rep);
    lemma_upsert_settled_noop(u, e0, rep);
    lemma_upsert_settled_noop(u, e1, rep);
    lemma_upsert_settled_noop(u, e2, rep);
    lemma_upsert_keeps_entries(v, e0, rep);
    lemma_upsert_keeps_entries(u1, e1, rep);
    lemma_upsert_keeps_entries(u2, e2, rep);
    lemma_keeps_entries_trans(v, u1, u2, rep);
    lemma_keeps_entries_trans(v, u2, u, rep);
}

/// Five upserts under distinct ids settle all five; repeating them changes nothing.
proof fn lemma_five_upserts<R>(
    v: Seq<(Seq<char>, R)>,
    e: Seq<(Seq<char>, R)>,
    rep: spec_fn(R) -> bool,
)
    requires
        e.len() == 5,
        forall|a: int, b: int| 0 <= a < b < 5 ==> #[trigger] e[a].0 != #[trigger] e[b].0,
    ensures
        ({
            let u = upsert_when(
                upsert_when(upsert_when(upsert_when(upsert_when(v, e[0], rep), e[1], rep), e[2], rep), e[3], rep),
                e[4],
                rep,
            );
            &&& upsert_when(
                upsert_when(upsert_when(upsert_when(upsert_when(u, e[0], rep), e[1], rep), e[2], rep), e[3], rep),
                e[4],
                rep,
            ) == u
            &&& forall|k: int| 0 <= k < 5 ==> has_id(u, #[trigger] e[k].0)
            &&& keeps_entries(v, u, rep)
        }),
{
    let u1 = upsert_when(v, e[0], rep);
    let u2 = upsert_when(u1, e[1], rep);
    let u3 = upsert_when(u2, e[2], rep);
    let u4 = upsert_when(u3, e[3], rep);
    let u = upsert_when(u4, e[4], rep);
    let us = seq![v, u1, u2, u3, u4, u];
    assert forall|k: int| 0 <= k < 5 implies settled(u, #[trigger] e[k], rep) by {
        assert(e[k].0 != e[(k + 1) % 5].0 || k == 4);
        lemma_upsert_settles(us[k], e[k], rep);
        if k < 1 {
            lemma_upsert_keeps_settled(u1, e[k], rep, e[1], rep);
        }
        if k < 2 {
            lemma_upsert_keeps_settled(u2, e[k], rep, e[2], rep);
        }
        if k < 3 {
            lemma_upsert_keeps_settled(u3, e[k], rep, e[3], rep);
        }
        if k < 4 {
            lemma_upsert_keeps_settled(u4, e[k], rep, e[4], rep);
        }
    }
    lemma_upsert_settled_noop(u, e[0], rep);
    lemma_upsert_settled_noop(u, e[1], rep);
    lemma_upsert_settled_noop(u, e[2], rep);
    lemma_upsert_settled_noop(u, e[3], rep);
    lemma_upsert_settled_noop(u, e[4], rep);
    lemma_upsert_keeps_entries(v, e[0], rep);
    lemma_upsert_keeps_entries(u1, e[1], rep);
    lemma_upsert_keeps_entries(u2, e[2], rep);
    lemma_upsert_keeps_entries(u3, e[3], rep);
    lemma_upsert_keeps_entries(u4, e[4], rep);
    lemma_keeps_entries_trans(v, u1, u2, rep);
    lemma_keeps_entries_trans(v, u2, u3, rep);
    lemma_keeps_entries_trans(v, u3, u4, rep);
    lemma_keeps_entries_trans(v, u4, u, rep);
}

proof fn lemma_seed_ids_distinct()
    ensures
        criterion_seed(0).0 != criterion_seed(1).0,
        criterion_seed(0).0 != criterion_seed(2).0,
        criterion_seed(1).0 != criterion_seed(2).0,
        gate_seed(0).0 != gate_seed(1).0,
        gate_seed(0).0 != gate_seed(2).0,
        gate_seed(1).0 != gate_seed(2).0,
        forall|a: int, b: int| 0 <= a < b < 5 ==> #[trigger] plan_seed(a).0 != #[trigger] plan_seed(b).0,
{
    reveal_strlit("AC-1");
    reveal_strlit("AC-2");
    reveal_strlit("AC-3");
    reveal_strlit("VG-DRY-RUN");
    reveal_strlit("VG-APPROVAL");
    reveal_strlit("VG-APPLY");
    reveal_strlit("observe-failure");
    reveal_strlit("dry-run");
    reveal_strlit("operator-approval");
    reveal_strlit("apply-update");
    reveal_strlit("curate-learning");
    assert("AC-1"@[3] != "AC-2"@[3]);
    assert("AC-1"@[3] != "AC-3"@[3]);
    assert("AC-2"@[3] != "AC-3"@[3]);
    assert("VG-APPROVAL"@.len() != "VG-APPLY"@.len());
    assert("VG-DRY-RUN"@[3] != "VG-APPLY"@[3]);
    assert("observe-failure"@[0] != "curate-learning"@[0]);
    assert forall|a: int, b: int| 0 <= a < b < 5 implies #[trigger] plan_seed(a).0
        != #[trigger] plan_seed(b).0 by {
        if a == 0 && b == 4 {
            assert(plan_seed(a).0[0] != plan_seed(b).0[0]);
        } else {
            assert(plan_seed(a).0.len() != plan_seed(b).0.len());
        }
    }
}

/// Seeding a mission twice is seeding it once.
pub proof fn lemma_harness_contract_idempotent(
    m: HarnessMissionView,
    unix_ms: u64,
    proposal_id: Seq<char>,
    source_id: Seq<char>,
    failure_summary: Seq<char>,
    root_cause: Seq<char>,
    rollback_plan: Seq<char>,
)
    ensures
        contract_view(
            contract_view(m, unix_ms, proposal_id, source_id, failure_summary, root_cause, rollback_plan),
            unix_ms,
            proposal_id,
            source_id,
            failure_summary,
            root_cause,
            rollback_plan,
        ) == contract_view(m, unix_ms, proposal_id, source_id, failure_summary, root_cause, rollback_plan),
{
    lemma_harness_contract_seeds_and_keeps(
        m,
        unix_ms,
        proposal_id,
        source_id,
        failure_summary,
        root_cause,
        rollback_plan,
    );
}

/// After seeding, the mission holds the proposal's failure record, memory hit
/// and recall, all three criteria, all five plan nodes, all three gates, a
/// tool budget and a checkpoint. Nothing that was there is dropped or moved:
/// criteria keep their place under their id, a plan node past `pending` and a
/// gate with a verdict are unchanged, and the update time never goes back.
pub proof fn lemma_harness_contract_seeds_and_keeps(
    m: HarnessMissionView,
    unix_ms: u64,
    proposal_id: Seq<char>,
    source_id: Seq<char>,
    failure_summary: Seq<char>,
    root_cause: Seq<char>,
    rollback_plan: Seq<char>,
)
    ensures
        ({
            let c = contract_view(m, unix_ms, proposal_id, source_id, failure_summary, root_cause, rollback_plan);
            &&& has_id(c.learning, source_id)
            &&& has_id(c.memory, source_id)
            &&& c.recall is Some
            &&& forall|k: int| 0 <= k < 3 ==> has_id(c.criteria, #[trigger] criterion_seed(k).0)
            &&& forall|k: int| 0 <= k < 5 ==> has_id(c.plan, #[trigger] plan_seed(k).0)
            &&& forall|k: int| 0 <= k < 3 ==> has_id(c.gates, #[trigger] gate_seed(k).0)
            &&& c.tools.len() > 0
            &&& c.checkpoints.len() > 0
            &&& c.updated >= m.updated && c.updated >= unix_ms
            &&& c.learning.take(m.learning.len() as int) == m.learning
            &&& c.memory.take(m.memory.len() as int) == m.memory
            &&& c.checkpoints.take(m.checkpoints.len() as int) == m.checkpoints
            &&& keeps_entries(m.criteria, c.criteria, criterion_replace())
            &&& keeps_entries(m.plan, c.plan, plan_replace())
            &&& keeps_entries(m.gates, c.gates, gate_replace())
            &&& contract_view(c, unix_ms, proposal_id, source_id, failure_summary, root_cause, rollback_plan) == c
        }),
{
    lemma_seed_ids_distinct();
    let c = contract_view(m, unix_ms, proposal_id, source_id, failure_summary, root_cause, rollback_plan);
    lemma_three_upserts(m.criteria, criterion_seed(0), criterion_seed(1), criterion_seed(2), criterion_replace());
    lemma_three_upserts(m.gates, gate_seed(0), gate_seed(1), gate_seed(2), gate_replace());
    let ps = seq![plan_seed(0), plan_seed(1), plan_seed(2), plan_seed(3), plan_seed(4)];
    assert forall|a: int, b: int| 0 <= a < b < 5 implies #[trigger] ps[a].0 != #[trigger] ps[b].0 by {
        assert(ps[a] == plan_seed(a));
        assert(ps[b] == plan_seed(b));
    }
    lemma_five_upserts(m.plan, ps, plan_replace());
    assert(ps[0] == plan_seed(0) && ps[1] == plan_seed(1) && ps[2] == plan_seed(2) && ps[3]
        == plan_seed(3) && ps[4] == plan_seed(4));
    assert forall|k: int| 0 <= k < 5 implies has_id(c.plan, #[trigger] plan_seed(k).0) by {
        assert(ps[k] == plan_seed(k));
    }
    assert forall|k: int| 0 <= k < 3 implies has_id(c.criteria, #[trigger] criterion_seed(k).0) by {
    }
    assert forall|k: int| 0 <= k < 3 implies has_id(c.gates, #[trigger] gate_seed(k).0) by {
    }
    if !has_id(m.learning, source_id) {
        assert(c.learning[m.learning.len() as int].0 == source_id);
    } else {
        let i = choose|i: int| 0 <= i < m.learning.len() && m.learning[i].0 == source_id;
        assert(c.learning[i].0 == source_id);
    }
    if !has_id(m.memory, source_id) {
        assert(c.memory[m.memory.len() as int].0 == source_id);
    } else {
        let i = choose|i: int| 0 <= i < m.memory.len() && m.memory[i].0 == source_id;
        assert(c.memory[i].0 == source_id);
    }
    assert(c.learning.take(m.learning.len() as int) =~= m.learning);
    assert(c.memory.take(m.memory.len() as int) =~= m.memory);
    assert(c.checkpoints.take(m.checkpoints.len() as int) =~= m.checkpoints);
    reveal_strlit("self_modification.dry_run");
    let cc = contract_view(c, unix_ms, proposal_id, source_id, failure_summary, root_cause, rollback_plan);
    assert(cc.learning == c.learning);
    assert(cc.memory == c.memory);
    assert(cc.criteria == c.criteria);
    assert(cc.plan == c.plan);
    assert(cc.gates == c.gates);
}

} // verus!
