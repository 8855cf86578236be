//! The rules of the mission-owned self-improvement loop: which targets a
//! mission may improve, when an approved proposal may be applied, and where
//! inside the workspace it is written. The mission record, the files and the
//! rollback copies are the caller's.
use vstd::prelude::*;

use crate::self_modification_pipeline::{
    SelfModificationPipelineError, is_dry_run_result, run_dry_run_pipeline,
};
use crate::self_modification_runtime::{
    ModificationTarget, ProposalIdRejection, SelfModificationConfig, SelfModificationResult,
    check_proposal_id, proposal_id_message, classify_modification_target, classify_spec, path_join, path_join_exec,
    proposal_id_check, valid_proposal_id,
};
use crate::text::{
    append_chars, append_str, chars_eq_str, chars_of, debug_str, join, push_debug_str, join_chars, split_on, split_on_chars,
    str_eq, string_of, string_views, trim, trim_chars, views_of,
};

verus! {

/// Where rollback copies of applied proposals live, under the workspace.
pub const SELF_MOD_ROLLBACKS_SUBDIR: &'static str = ".tau/self-mod-rollbacks";

/// What applying an approved proposal did.
#[derive(Debug, Clone, PartialEq, Eq)]
pub struct MissionSelfModificationApplyResult {
    pub proposal_id: String,
    pub target_path: String,
    pub rollback_path: String,
    pub applied_unix_ms: u64,
    pub previous_content_existed: bool,
}

/// The targets the conservative loop may improve.
#[derive(Debug, Clone, Copy, PartialEq, Eq, Structural)]
pub enum MissionTargetKind {
    Skill,
    Config,
    Prompt,
}

/// Why a target is refused.
#[derive(Debug, Clone, PartialEq, Eq)]
pub enum MissionTargetError {
    /// Source code is outside the conservative loop.
    SourceTarget { target_path: String },
    /// The target is of no known kind.
    UnrecognizedTarget { target_path: String },
    /// The target path is blank.
    EmptyTargetPath,
    /// The target path is absolute or climbs out with `..`.
    OutsideWorkspace,
    /// The target path names no file or directory.
    NoNormalComponent,
}

/// The mission kind of a target path.
pub fn mission_target_kind(target_path: &str) -> (r: Result<MissionTargetKind, MissionTargetError>)
    ensures
        match classify_spec(target_path@) {
            ModificationTarget::Skill => r == Ok::<MissionTargetKind, MissionTargetError>(MissionTargetKind::Skill),
            ModificationTarget::Config => r == Ok::<MissionTargetKind, MissionTargetError>(MissionTargetKind::Config),
            ModificationTarget::Prompt => r == Ok::<MissionTargetKind, MissionTargetError>(MissionTargetKind::Prompt),
            ModificationTarget::Source => r matches Err(MissionTargetError::SourceTarget { target_path: p })
                && p@ == target_path@,
            ModificationTarget::Other => r matches Err(MissionTargetError::UnrecognizedTarget { target_path: p })
                && p@ == target_path@,
        },
{
    match classify_modification_target(target_path) {
        ModificationTarget::Skill => Ok(MissionTargetKind::Skill),
        ModificationTarget::Config => Ok(MissionTargetKind::Config),
        ModificationTarget::Prompt => Ok(MissionTargetKind::Prompt),
        ModificationTarget::Source => Err(
            MissionTargetError::SourceTarget { target_path: String::from_str(target_path) },
        ),
        ModificationTarget::Other => Err(
            MissionTargetError::UnrecognizedTarget { target_path: String::from_str(target_path) },
        ),
    }
}

// ---------------------------------------------------------------------------
// Apply eligibility
// ---------------------------------------------------------------------------

/// Where a proposal stands.
#[derive(Debug, Clone, Copy, PartialEq, Eq, Structural)]
pub enum ProposalStatus {
    Proposed,
    Approved,
    Applied,
    Rejected,
}

/// The parts of a recorded proposal that decide whether it may be applied.
#[derive(Debug, Clone)]
pub struct ProposalApplyView {
    pub proposal_id: String,
    /// The target path as the proposal recorded it.
    pub target_path: String,
    /// `None` for a target kind outside the conservative loop.
    pub target_kind: Option<MissionTargetKind>,
    pub status: ProposalStatus,
    pub has_operator_approval: bool,
}

/// Why a proposal may not be applied.
#[derive(Debug, Clone, Copy, PartialEq, Eq, Structural)]
pub enum ApplyEligibilityError {
    OutsideConservativeLoop,
    AlreadyApplied,
    NotApproved(ProposalStatus),
    MissingOperatorApproval,
}

pub open spec fn apply_eligibility_spec(p: ProposalApplyView) -> Option<ApplyEligibilityError> {
    if p.target_kind is None {
        Some(ApplyEligibilityError::OutsideConservativeLoop)
    } else if p.status == ProposalStatus::Applied {
        Some(ApplyEligibilityError::AlreadyApplied)
    } else if p.status != ProposalStatus::Approved {
        Some(ApplyEligibilityError::NotApproved(p.status))
    } else if !p.has_operator_approval {
        Some(ApplyEligibilityError::MissingOperatorApproval)
    } else {
        None
    }
}

/// A proposal may be applied when it targets a skill, config or prompt, is
/// approved and not yet applied, and carries the operator's approval.
pub fn ensure_apply_eligible(proposal: &ProposalApplyView) -> (r: Result<(), ApplyEligibilityError>)
    ensures
        match apply_eligibility_spec(*proposal) {
            None => r is Ok,
            Some(e) => r == Err::<(), ApplyEligibilityError>(e),
        },
{
    if proposal.target_kind.is_none() {
        return Err(ApplyEligibilityError::OutsideConservativeLoop);
    }
    if proposal.status == ProposalStatus::Applied {
        return Err(ApplyEligibilityError::AlreadyApplied);
    }
    if proposal.status != ProposalStatus::Approved {
        return Err(ApplyEligibilityError::NotApproved(proposal.status));
    }
    if !proposal.has_operator_approval {
        return Err(ApplyEligibilityError::MissingOperatorApproval);
    }
    Ok(())
}

// ---------------------------------------------------------------------------
// Workspace containment
// ---------------------------------------------------------------------------

/// The components `Path::components` calls normal: not empty, not `.`.
pub open spec fn normal_segments(segs: Seq<Seq<char>>) -> Seq<Seq<char>>
    decreases segs.len(),
{
    if segs.len() == 0 {
        seq![]
    } else {
        let prev = normal_segments(segs.drop_last());
        let s = segs.last();
        if s.len() > 0 && s != "."@ {
            prev.push(s)
        } else {
            prev
        }
    }
}

pub open spec fn has_parent_segment(segs: Seq<Seq<char>>) -> bool {
    exists|i: int| 0 <= i < segs.len() && segs[i] == ".."@
}

/// The normal components of a target path relative to the workspace.
pub open spec fn target_components_spec(target_path: Seq<char>) -> Option<Seq<Seq<char>>> {
    let segs = split_on(target_path, '/');
    if target_path.len() > 0 && target_path[0] == '/' {
        None
    } else if has_parent_segment(segs) {
        None
    } else {
        Some(normal_segments(segs))
    }
}

/// Where an approved target is written: the canonical workspace joined with
/// the target's normal components. A blank path, an absolute path, a path
/// with `..`, and a path with no normal component are refused.
pub open spec fn workspace_target_spec(workspace: Seq<char>, target_path: Seq<char>) -> Result<
    Seq<char>,
    MissionTargetError,
> {
    if trim(target_path).len() == 0 {
        Err(MissionTargetError::EmptyTargetPath)
    } else {
        match target_components_spec(target_path) {
            None => Err(MissionTargetError::OutsideWorkspace),
            Some(n) => if n.len() == 0 {
                Err(MissionTargetError::NoNormalComponent)
            } else {
                Ok(path_join(workspace, join(n, "/"@)))
            },
        }
    }
}

pub open spec fn target_result_view(r: Result<String, MissionTargetError>) -> Result<
    Seq<char>,
    MissionTargetError,
> {
    match r {
        Ok(p) => Ok(p@),
        Err(e) => Err(e),
    }
}

/// The file an approved proposal writes, inside `canonical_workspace`.
pub fn resolve_workspace_target(canonical_workspace: &str, target_path: &str) -> (r: Result<
    String,
    MissionTargetError,
>)
    ensures
        target_result_view(r) == workspace_target_spec(canonical_workspace@, target_path@),
{
    let path = chars_of(target_path);
    if trim_chars(&path).len() == 0 {
        return Err(MissionTargetError::EmptyTargetPath);
    }
    if path.len() > 0 && path[0] == '/' {
        return Err(MissionTargetError::OutsideWorkspace);
    }
    let segs = split_on_chars(&path, '/');
    let ghost sv = views_of(segs@);
    let mut normal: Vec<Vec<char>> = Vec::new();
    let mut i: usize = 0;
    while i < segs.len()
        invariant
            i <= segs.len(),
            sv == views_of(segs@),
            sv == split_on(path@, '/'),
            path@ == target_path@,
            trim(target_path@).len() > 0,
            !(target_path@.len() > 0 && target_path@[0] == '/'),
            views_of(normal@) == normal_segments(sv.take(i as int)),
            forall|j: int| 0 <= j < i ==> sv[j] != ".."@,
        decreases segs.len() - i,
    {
        assert(sv.take(i + 1).drop_last() =~= sv.take(i as int));
        assert(sv[i as int] == segs@[i as int]@);
        if chars_eq_str(&segs[i], "..") {
            assert(has_parent_segment(sv));
            return Err(MissionTargetError::OutsideWorkspace);
        }
        if segs[i].len() > 0 && !chars_eq_str(&segs[i], ".") {
            let ghost old_n = views_of(normal@);
            let s = crate::text::sub_chars(&segs[i], 0, segs[i].len());
            assert(s@ =~= segs@[i as int]@);
            normal.push(s);
            assert(views_of(normal@) =~= old_n.push(sv[i as int]));
        }
        i += 1;
    }
    assert(sv.take(segs.len() as int) =~= sv);
    assert(!has_parent_segment(sv));
    if normal.len() == 0 {
        return Err(MissionTargetError::NoNormalComponent);
    }
    let relative = join_chars(&normal, &chars_of("/"));
    Ok(string_of(&path_join_exec(&chars_of(canonical_workspace), &relative)))
}


proof fn lemma_split_state_no_sep(s: Seq<char>, sep: char)
    ensures
        forall|i: int|
            0 <= i < crate::text::split_state(s, sep).0.len() ==> !crate::text::has_char(
                #[trigger] crate::text::split_state(s, sep).0[i],
                sep,
            ),
        !crate::text::has_char(crate::text::split_state(s, sep).1, sep),
    decreases s.len(),
{
    if s.len() > 0 {
        lemma_split_state_no_sep(s.drop_last(), sep);
        let (done, cur) = crate::text::split_state(s.drop_last(), sep);
        if s.last() != sep {
            let c2 = cur.push(s.last());
            assert forall|k: int| 0 <= k < c2.len() implies c2[k] != sep by {
                if k < cur.len() {
                    assert(c2[k] == cur[k]);
                }
            }
        }
    }
}

proof fn lemma_normal_segments_from(segs: Seq<Seq<char>>)
    ensures
        forall|i: int|
            0 <= i < normal_segments(segs).len() ==> exists|j: int|
                0 <= j < segs.len() && segs[j] == #[trigger] normal_segments(segs)[i],
        forall|i: int|
            0 <= i < normal_segments(segs).len() ==> (#[trigger] normal_segments(segs)[i]).len() > 0
                && normal_segments(segs)[i] != "."@,
    decreases segs.len(),
{
    if segs.len() > 0 {
        lemma_normal_segments_from(segs.drop_last());
        let prev = normal_segments(segs.drop_last());
        assert forall|i: int| 0 <= i < normal_segments(segs).len() implies exists|j: int|
            0 <= j < segs.len() && segs[j] == #[trigger] normal_segments(segs)[i] by {
            if i < prev.len() {
                let j = choose|j: int| 0 <= j < segs.drop_last().len() && segs.drop_last()[j] == prev[i];
                assert(segs[j] == normal_segments(segs)[i]);
            } else {
                assert(segs[segs.len() - 1] == normal_segments(segs)[i]);
            }
        }
    }
}

/// A resolved target stays inside the workspace: it is the workspace joined
/// with one or more components, none of them empty, `.`, `..`, or holding a
/// `/`.
pub proof fn lemma_resolved_target_inside_workspace(workspace: Seq<char>, target_path: Seq<char>)
    requires
        workspace_target_spec(workspace, target_path) is Ok,
    ensures
        exists|n: Seq<Seq<char>>|
            {
                &&& n.len() > 0
                &&& workspace_target_spec(workspace, target_path) == Ok::<
                    Seq<char>,
                    MissionTargetError,
                >(path_join(workspace, join(n, "/"@)))
                &&& forall|i: int|
                    0 <= i < n.len() ==> {
                        let c = #[trigger] n[i];
                        &&& c.len() > 0
                        &&& c != "."@
                        &&& c != ".."@
                        &&& !crate::text::has_char(c, '/')
                    }
            },
{
    let segs = split_on(target_path, '/');
    let n = normal_segments(segs);
    lemma_split_state_no_sep(target_path, '/');
    lemma_normal_segments_from(segs);
    let (done, cur) = crate::text::split_state(target_path, '/');
    assert forall|i: int| 0 <= i < n.len() implies {
        let c = #[trigger] n[i];
        &&& c.len() > 0
        &&& c != "."@
        &&& c != ".."@
        &&& !crate::text::has_char(c, '/')
    } by {
        let j = choose|j: int| 0 <= j < segs.len() && segs[j] == n[i];
        if j < done.len() {
            assert(segs[j] == done[j]);
        } else {
            assert(segs[j] == cur);
        }
        assert(!has_parent_segment(segs));
    }
}


// ---------------------------------------------------------------------------
// Recording a dry-run on the mission
// ---------------------------------------------------------------------------

/// What the operator hands in for a mission-owned dry-run.
#[derive(Debug, Clone, PartialEq, Eq)]
pub struct MissionSelfModificationInput {
    pub target_path: String,
    pub proposed_content: String,
    pub proposal_id: String,
    pub source_learning_record_id: String,
    pub rationale: String,
    pub patch_summary: String,
    pub rollback_plan: String,
    pub proposed_unix_ms: u64,
    pub dry_run_unix_ms: u64,
    pub test_command: String,
    pub test_passed: bool,
    pub safety_check_id: String,
    /// Whether an operator approval comes with the input (the approval record
    /// itself belongs to the mission store).
    pub has_operator_approval: bool,
    pub curator_memory_record_id: String,
}

/// The status of a piece of mission evidence.
#[derive(Debug, Clone, Copy, PartialEq, Eq, Structural)]
pub enum MissionEvidenceStatus {
    Passed,
    Failed,
}

/// Everything a dry-run records on the mission: the dry-run itself, the
/// operator's validation command and the policy's safety check.
#[derive(Debug, Clone)]
pub struct MissionDryRunEvidence {
    pub target_kind: MissionTargetKind,
    /// The target's classification by name (`Skill`, `Config`, ...).
    pub target_classification: String,
    pub result: SelfModificationResult,
    pub dry_run_passed: bool,
    pub dry_run_summary: String,
    pub test_status: MissionEvidenceStatus,
    pub test_ran_unix_ms: u64,
    pub test_summary: String,
    pub safety_status: MissionEvidenceStatus,
    pub safety_ran_unix_ms: u64,
    pub safety_summary: String,
    /// Whether the proposal is to be approved right away.
    pub approve: bool,
}

/// Why a dry-run cannot be recorded.
#[derive(Debug, Clone)]
pub enum MissionDryRunError {
    ProposalIdRejected { proposal_id: String, rejection: ProposalIdRejection },
    Target(MissionTargetError),
}

/// The name `{:?}` prints for a classification.
pub open spec fn target_name_spec(t: ModificationTarget) -> Seq<char> {
    match t {
        ModificationTarget::Skill => "Skill"@,
        ModificationTarget::Config => "Config"@,
        ModificationTarget::Prompt => "Prompt"@,
        ModificationTarget::Source => "Source"@,
        ModificationTarget::Other => "Other"@,
    }
}

pub fn target_name(t: ModificationTarget) -> (s: &'static str)
    ensures
        s@ == target_name_spec(t),
{
    match t {
        ModificationTarget::Skill => "Skill",
        ModificationTarget::Config => "Config",
        ModificationTarget::Prompt => "Prompt",
        ModificationTarget::Source => "Source",
        ModificationTarget::Other => "Other",
    }
}

pub open spec fn quoted(s: Seq<char>) -> Seq<char> {
    "\""@ + s + "\""@
}

/// A list of strings as `{:?}` prints it, for items holding no character that
/// `{:?}` escapes (the reason codes of the policy are such items).
pub open spec fn debug_list(items: Seq<Seq<char>>) -> Seq<char> {
    "["@ + join(items.map_values(|s: Seq<char>| quoted(s)), ", "@) + "]"@
}

pub fn debug_string_list(items: &Vec<String>) -> (r: Vec<char>)
    ensures
        r@ == debug_list(string_views(items@)),
{
    let ghost iv = string_views(items@);
    let mut qs: Vec<Vec<char>> = Vec::new();
    let mut i: usize = 0;
    while i < items.len()
        invariant
            i <= items.len(),
            iv == string_views(items@),
            qs.len() == i,
            views_of(qs@) == iv.take(i as int).map_values(|s: Seq<char>| quoted(s)),
        decreases items.len() - i,
    {
        let mut q = chars_of("\"");
        append_str(&mut q, items[i].as_str());
        append_str(&mut q, "\"");
        let ghost old_q = views_of(qs@);
        qs.push(q);
        assert(views_of(qs@) =~= old_q.push(quoted(iv[i as int])));
        i += 1;
        assert(iv.take(i as int).map_values(|s: Seq<char>| quoted(s)) =~= old_q.push(
            quoted(iv[i - 1]),
        ));
    }
    assert(iv.take(items.len() as int) =~= iv);
    let mut out = chars_of("[");
    let joined = join_chars(&qs, &chars_of(", "));
    append_chars(&mut out, &joined);
    append_str(&mut out, "]");
    out
}

pub open spec fn sat_add_u64(a: u64, b: u64) -> u64 {
    if a + b > u64::MAX {
        u64::MAX
    } else {
        (a + b) as u64
    }
}

pub open spec fn evidence_status(passed: bool) -> MissionEvidenceStatus {
    if passed {
        MissionEvidenceStatus::Passed
    } else {
        MissionEvidenceStatus::Failed
    }
}

/// The evidence of a dry-run whose pipeline result is `res`.
pub open spec fn is_dry_run_evidence(
    ev: MissionDryRunEvidence,
    input: MissionSelfModificationInput,
    kind: MissionTargetKind,
) -> bool {
    let allowed = ev.result.safety_evaluation.allowed;
    &&& ev.target_kind == kind
    &&& ev.target_classification@ == target_name_spec(classify_spec(input.target_path@))
    &&& ev.dry_run_passed == allowed
    &&& ev.dry_run_summary@ == if allowed {
        "self-modification dry-run passed policy"@
    } else {
        "self-modification dry-run blocked by "@ + debug_list(
            string_views(ev.result.safety_evaluation.blocked_by@),
        )
    }
    &&& ev.test_status == evidence_status(input.test_passed)
    &&& ev.test_ran_unix_ms == sat_add_u64(input.dry_run_unix_ms, 1)
    &&& ev.test_summary@ == if input.test_passed {
        "operator-supplied validation command passed"@
    } else {
        "operator-supplied validation command failed"@
    }
    &&& ev.safety_status == evidence_status(allowed)
    &&& ev.safety_ran_unix_ms == sat_add_u64(input.dry_run_unix_ms, 2)
    &&& ev.safety_summary@ == if allowed {
        "self-modification policy allowed target"@
    } else {
        "self-modification policy blocked target"@
    }
    &&& ev.approve == input.has_operator_approval
}

/// The mission kind of a classification, where it has one.
pub open spec fn mission_kind_spec(t: ModificationTarget) -> Option<MissionTargetKind> {
    match t {
        ModificationTarget::Skill => Some(MissionTargetKind::Skill),
        ModificationTarget::Config => Some(MissionTargetKind::Config),
        ModificationTarget::Prompt => Some(MissionTargetKind::Prompt),
        _ => None,
    }
}

/// The refusal `mission_target_kind` gives a source or unrecognised target.
pub open spec fn target_refusal(e: MissionTargetError, target_path: Seq<char>) -> bool {
    match classify_spec(target_path) {
        ModificationTarget::Source => e matches MissionTargetError::SourceTarget { target_path: p }
            && p@ == target_path,
        ModificationTarget::Other => e matches MissionTargetError::UnrecognizedTarget {
            target_path: p,
        } && p@ == target_path,
        _ => false,
    }
}

/// Runs the dry-run pipeline for a mission proposal and works out the
/// evidence the mission records. The proposal identifier is checked first,
/// then the target must be a skill, config or prompt.
pub fn plan_mission_dry_run(
    workspace_root: &str,
    input: &MissionSelfModificationInput,
    config: &SelfModificationConfig,
) -> (r: Result<MissionDryRunEvidence, MissionDryRunError>)
    ensures
        !valid_proposal_id(input.proposal_id@) <==> r matches Err(
            MissionDryRunError::ProposalIdRejected { .. },
        ),
        r matches Err(MissionDryRunError::ProposalIdRejected { proposal_id, rejection })
            ==> proposal_id@ == input.proposal_id@ && proposal_id_check(input.proposal_id@)
            == Some(rejection),
        valid_proposal_id(input.proposal_id@) ==> match mission_kind_spec(
            classify_spec(input.target_path@),
        ) {
            None => r matches Err(MissionDryRunError::Target(e)) && target_refusal(
                e,
                input.target_path@,
            ),
            Some(kind) => r matches Ok(ev) && is_dry_run_result(
                ev.result,
                workspace_root@,
                input.target_path@,
                input.proposal_id@,
                *config,
            ) && is_dry_run_evidence(ev, *input, kind),
        },
{
    match check_proposal_id(input.proposal_id.as_str()) {
        Err(rejection) => {
            return Err(
                MissionDryRunError::ProposalIdRejected {
                    proposal_id: input.proposal_id.clone(),
                    rejection,
                },
            );
        },
        Ok(()) => {},
    }
    let kind = match mission_target_kind(input.target_path.as_str()) {
        Ok(k) => k,
        Err(e) => {
            return Err(MissionDryRunError::Target(e));
        },
    };
    let res = match run_dry_run_pipeline(
        workspace_root,
        input.target_path.as_str(),
        Some(input.proposal_id.as_str()),
        config,
    ) {
        Ok(res) => res,
        Err(SelfModificationPipelineError::ProposalIdOverrideRejected { proposal_id, rejection }) => {
            return Err(MissionDryRunError::ProposalIdRejected { proposal_id, rejection });
        },
    };
    let allowed = res.safety_evaluation.allowed;
    let dry_run_summary = if allowed {
        String::from_str("self-modification dry-run passed policy")
    } else {
        let mut out = chars_of("self-modification dry-run blocked by ");
        let list = debug_string_list(&res.safety_evaluation.blocked_by);
        append_chars(&mut out, &list);
        string_of(&out)
    };
    let test_summary = if input.test_passed {
        String::from_str("operator-supplied validation command passed")
    } else {
        String::from_str("operator-supplied validation command failed")
    };
    let safety_summary = if allowed {
        String::from_str("self-modification policy allowed target")
    } else {
        String::from_str("self-modification policy blocked target")
    };
    let classification = classify_modification_target(input.target_path.as_str());
    Ok(
        MissionDryRunEvidence {
            target_kind: kind,
            target_classification: String::from_str(target_name(classification)),
            result: res,
            dry_run_passed: allowed,
            dry_run_summary,
            test_status: if input.test_passed {
                MissionEvidenceStatus::Passed
            } else {
                MissionEvidenceStatus::Failed
            },
            test_ran_unix_ms: input.dry_run_unix_ms.saturating_add(1),
            test_summary,
            safety_status: if allowed {
                MissionEvidenceStatus::Passed
            } else {
                MissionEvidenceStatus::Failed
            },
            safety_ran_unix_ms: input.dry_run_unix_ms.saturating_add(2),
            safety_summary,
            approve: input.has_operator_approval,
        },
    )
}

// ---------------------------------------------------------------------------
// Applying an approved proposal
// ---------------------------------------------------------------------------

/// Where an approved proposal is written, and where its rollback copy and
/// rollback metadata go.
#[derive(Debug, Clone)]
pub struct MissionApplyPlan {
    pub target_path: String,
    pub rollback_root: String,
    pub rollback_path: String,
    pub metadata_path: String,
}

/// Why an approved proposal cannot be applied.
#[derive(Debug, Clone, PartialEq, Eq)]
pub enum MissionApplyError {
    ProposalIdRejected { proposal_id: String, rejection: ProposalIdRejection },
    ProposalNotFound { proposal_id: String },
    Ineligible { proposal_id: String, reason: ApplyEligibilityError },
    Target { target_path: String, reason: MissionTargetError },
}

/// `<workspace_root>/.tau/self-mod-rollbacks/<proposal_id>`.
pub open spec fn rollback_root_spec(workspace_root: Seq<char>, proposal_id: Seq<char>) -> Seq<char> {
    path_join(path_join(workspace_root, SELF_MOD_ROLLBACKS_SUBDIR@), proposal_id)
}

/// What applying `p` comes to: the eligibility rules first, then the target
/// inside the canonical workspace, then the rollback paths.
pub open spec fn apply_outcome(
    r: Result<MissionApplyPlan, MissionApplyError>,
    p: ProposalApplyView,
    workspace_root: Seq<char>,
    canonical_workspace: Seq<char>,
    proposal_id: Seq<char>,
) -> bool {
    match apply_eligibility_spec(p) {
        Some(e) => r matches Err(MissionApplyError::Ineligible { proposal_id: id, reason })
            && reason == e && id@ == proposal_id,
        None => match workspace_target_spec(canonical_workspace, p.target_path@) {
            Err(e) => r matches Err(MissionApplyError::Target { target_path: t, reason })
                && reason == e && t@ == p.target_path@,
            Ok(t) => {
                let root = rollback_root_spec(workspace_root, proposal_id);
                &&& r matches Ok(plan)
                &&& plan.target_path@ == t
                &&& plan.rollback_root@ == root
                &&& plan.rollback_path@ == path_join(root, "previous-content.bin"@)
                &&& plan.metadata_path@ == path_join(root, "metadata.json"@)
            },
        },
    }
}

/// Decides whether the recorded proposal `proposal_id` may be applied and
/// where it is written. The identifier is checked first; the first proposal
/// recorded under it is the one that counts.
pub fn plan_mission_apply(
    workspace_root: &str,
    canonical_workspace: &str,
    proposals: &Vec<ProposalApplyView>,
    proposal_id: &str,
) -> (r: Result<MissionApplyPlan, MissionApplyError>)
    ensures
        !valid_proposal_id(proposal_id@) <==> r matches Err(
            MissionApplyError::ProposalIdRejected { .. },
        ),
        r matches Err(MissionApplyError::ProposalIdRejected { proposal_id: id, rejection }) ==> id@
            == proposal_id@ && proposal_id_check(proposal_id@) == Some(rejection),
        valid_proposal_id(proposal_id@) ==> ((forall|i: int|
            0 <= i < proposals@.len() ==> (#[trigger] proposals@[i]).proposal_id@ != proposal_id@)
            <==> r matches Err(MissionApplyError::ProposalNotFound { proposal_id: id })),
        r matches Err(MissionApplyError::ProposalNotFound { proposal_id: id }) ==> id@
            == proposal_id@,
        valid_proposal_id(proposal_id@) ==> forall|i: int|
            0 <= i < proposals@.len() && (#[trigger] proposals@[i]).proposal_id@ == proposal_id@
                && (forall|j: int| 0 <= j < i ==> proposals@[j].proposal_id@ != proposal_id@)
                ==> apply_outcome(
                r,
                proposals@[i],
                workspace_root@,
                canonical_workspace@,
                proposal_id@,
            ),
{
    match check_proposal_id(proposal_id) {
        Err(rejection) => {
            return Err(
                MissionApplyError::ProposalIdRejected {
                    proposal_id: String::from_str(proposal_id),
                    rejection,
                },
            );
        },
        Ok(()) => {},
    }
    let mut k: usize = 0;
    while k < proposals.len()
        invariant
            k <= proposals.len(),
            forall|j: int| 0 <= j < k ==> proposals@[j].proposal_id@ != proposal_id@,
        ensures
            k <= proposals.len(),
            forall|j: int| 0 <= j < k ==> proposals@[j].proposal_id@ != proposal_id@,
            k < proposals.len() ==> proposals@[k as int].proposal_id@ == proposal_id@,
        decreases proposals.len() - k,
    {
        if str_eq(proposals[k].proposal_id.as_str(), proposal_id) {
            break;
        }
        k += 1;
    }
    if k == proposals.len() {
        return Err(MissionApplyError::ProposalNotFound { proposal_id: String::from_str(proposal_id) });
    }
    let proposal = &proposals[k];
    assert(proposals@[k as int].proposal_id@ == proposal_id@);
    match ensure_apply_eligible(proposal) {
        Err(e) => {
            return Err(
                MissionApplyError::Ineligible { proposal_id: String::from_str(proposal_id), reason: e },
            );
        },
        Ok(()) => {},
    }
    let target = match resolve_workspace_target(canonical_workspace, proposal.target_path.as_str()) {
        Ok(t) => t,
        Err(e) => {
            return Err(
                MissionApplyError::Target { target_path: proposal.target_path.clone(), reason: e },
            );
        },
    };
    let subdir = path_join_exec(&chars_of(workspace_root), &chars_of(SELF_MOD_ROLLBACKS_SUBDIR));
    let root = path_join_exec(&subdir, &chars_of(proposal_id));
    let rollback_path = path_join_exec(&root, &chars_of("previous-content.bin"));
    let metadata_path = path_join_exec(&root, &chars_of("metadata.json"));
    Ok(
        MissionApplyPlan {
            target_path: target,
            rollback_root: string_of(&root),
            rollback_path: string_of(&rollback_path),
            metadata_path: string_of(&metadata_path),
        },
    )
}

// ---------------------------------------------------------------------------
// Messages
// ---------------------------------------------------------------------------

/// The message of a refused target; `target_path` names the path for the
/// refusals that do not carry it.
pub open spec fn target_error_message(e: MissionTargetError, target_path: Seq<char>) -> Seq<char> {
    match e {
        MissionTargetError::SourceTarget { target_path: p } => "target "@ + debug_str(p@)
            + " is outside conservative loop: source-code self-modification"@,
        MissionTargetError::UnrecognizedTarget { target_path: p } => "target "@ + debug_str(p@)
            + " is outside conservative loop: unrecognized self-modification target"@,
        MissionTargetError::EmptyTargetPath => "target path must not be empty"@,
        MissionTargetError::OutsideWorkspace => "target path "@ + debug_str(target_path)
            + " is outside workspace"@,
        MissionTargetError::NoNormalComponent => "target path must contain at least one normal component"@,
    }
}

impl MissionTargetError {
    /// The message of this refusal of `target_path`.
    pub fn message(&self, target_path: &str) -> (s: String)
        ensures
            s@ == target_error_message(*self, target_path@),
    {
        let mut out: Vec<char> = Vec::new();
        match self {
            MissionTargetError::SourceTarget { target_path: p } => {
                append_str(&mut out, "target ");
                push_debug_str(&mut out, p.as_str());
                append_str(&mut out, " is outside conservative loop: source-code self-modification");
            },
            MissionTargetError::UnrecognizedTarget { target_path: p } => {
                append_str(&mut out, "target ");
                push_debug_str(&mut out, p.as_str());
                append_str(
                    &mut out,
                    " is outside conservative loop: unrecognized self-modification target",
                );
            },
            MissionTargetError::EmptyTargetPath => {
                append_str(&mut out, "target path must not be empty");
            },
            MissionTargetError::OutsideWorkspace => {
                append_str(&mut out, "target path ");
                push_debug_str(&mut out, target_path);
                append_str(&mut out, " is outside workspace");
            },
            MissionTargetError::NoNormalComponent => {
                append_str(&mut out, "target path must contain at least one normal component");
            },
        }
        assert(out@ =~= target_error_message(*self, target_path@));
        string_of(&out)
    }
}

pub open spec fn status_name(s: ProposalStatus) -> Seq<char> {
    match s {
        ProposalStatus::Proposed => "Proposed"@,
        ProposalStatus::Approved => "Approved"@,
        ProposalStatus::Applied => "Applied"@,
        ProposalStatus::Rejected => "Rejected"@,
    }
}

/// The message of an ineligible proposal.
pub open spec fn eligibility_message(e: ApplyEligibilityError, proposal_id: Seq<char>) -> Seq<char> {
    let p = "proposal "@ + debug_str(proposal_id);
    match e {
        ApplyEligibilityError::OutsideConservativeLoop => p + " is outside conservative loop"@,
        ApplyEligibilityError::AlreadyApplied => p + " has already been applied"@,
        ApplyEligibilityError::NotApproved(s) => p + " must be approved before apply; status is "@
            + status_name(s),
        ApplyEligibilityError::MissingOperatorApproval => p + " is missing operator approval"@,
    }
}

impl ApplyEligibilityError {
    /// The message of this refusal of proposal `proposal_id`.
    pub fn message(&self, proposal_id: &str) -> (s: String)
        ensures
            s@ == eligibility_message(*self, proposal_id@),
    {
        let mut out = chars_of("proposal ");
        push_debug_str(&mut out, proposal_id);
        match self {
            ApplyEligibilityError::OutsideConservativeLoop => {
                append_str(&mut out, " is outside conservative loop");
            },
            ApplyEligibilityError::AlreadyApplied => {
                append_str(&mut out, " has already been applied");
            },
            ApplyEligibilityError::NotApproved(st) => {
                append_str(&mut out, " must be approved before apply; status is ");
                let name = match st {
                    ProposalStatus::Proposed => "Proposed",
                    ProposalStatus::Approved => "Approved",
                    ProposalStatus::Applied => "Applied",
                    ProposalStatus::Rejected => "Rejected",
                };
                append_str(&mut out, name);
            },
            ApplyEligibilityError::MissingOperatorApproval => {
                append_str(&mut out, " is missing operator approval");
            },
        }
        assert(out@ =~= eligibility_message(*self, proposal_id@));
        string_of(&out)
    }
}

/// `proposal_id "<id>" rejected: <reason>`.
pub open spec fn id_rejected_message(proposal_id: Seq<char>, r: ProposalIdRejection) -> Seq<char> {
    "proposal_id "@ + debug_str(proposal_id) + " rejected: "@ + proposal_id_message(r)
}

fn id_rejected_text(proposal_id: &str, r: ProposalIdRejection) -> (s: String)
    ensures
        s@ == id_rejected_message(proposal_id@, r),
{
    let mut out = chars_of("proposal_id ");
    push_debug_str(&mut out, proposal_id);
    append_str(&mut out, " rejected: ");
    let reason = r.to_string();
    append_str(&mut out, reason.as_str());
    string_of(&out)
}

pub open spec fn apply_error_message(e: MissionApplyError) -> Seq<char> {
    match e {
        MissionApplyError::ProposalIdRejected { proposal_id, rejection } => id_rejected_message(
            proposal_id@,
            rejection,
        ),
        MissionApplyError::ProposalNotFound { proposal_id } => "improvement proposal "@
            + debug_str(proposal_id@) + " was not found"@,
        MissionApplyError::Ineligible { proposal_id, reason } => eligibility_message(
            reason,
            proposal_id@,
        ),
        MissionApplyError::Target { target_path, reason } => target_error_message(
            reason,
            target_path@,
        ),
    }
}

impl MissionApplyError {
    pub fn to_string(&self) -> (s: String)
        ensures
            s@ == apply_error_message(*self),
    {
        match self {
            MissionApplyError::ProposalIdRejected { proposal_id, rejection } => id_rejected_text(
                proposal_id.as_str(),
                *rejection,
            ),
            MissionApplyError::ProposalNotFound { proposal_id } => {
                let mut out = chars_of("improvement proposal ");
                push_debug_str(&mut out, proposal_id.as_str());
                append_str(&mut out, " was not found");
                string_of(&out)
            },
            MissionApplyError::Ineligible { proposal_id, reason } => reason.message(
                proposal_id.as_str(),
            ),
            MissionApplyError::Target { target_path, reason } => reason.message(
                target_path.as_str(),
            ),
        }
    }
}

pub open spec fn dry_run_error_message(e: MissionDryRunError) -> Seq<char> {
    match e {
        MissionDryRunError::ProposalIdRejected { proposal_id, rejection } => id_rejected_message(
            proposal_id@,
            rejection,
        ),
        MissionDryRunError::Target(reason) => target_error_message(reason, ""@),
    }
}

impl MissionDryRunError {
    pub fn to_string(&self) -> (s: String)
        ensures
            s@ == dry_run_error_message(*self),
    {
        match self {
            MissionDryRunError::ProposalIdRejected { proposal_id, rejection } => id_rejected_text(
                proposal_id.as_str(),
                *rejection,
            ),
            MissionDryRunError::Target(reason) => reason.message(""),
        }
    }
}

} // verus!
