//! The dry-run pipeline of the self-modification runtime.
//!
//! [`run_dry_run_pipeline`] picks the proposal identifier (a validated override
//! or a fresh one), classifies the target path, applies the auto-apply policy and
//! returns the populated [`SelfModificationResult`], including the containment
//! path of the proposal's worktree. Creating that directory and removing it again
//! is the caller's filesystem work; this module decides everything else.
use vstd::prelude::*;

use crate::self_modification_runtime::{
    ModificationTarget, ProposalIdRejection, SelfModificationConfig, SelfModificationResult,
    SelfModificationSafetyResult, auto_apply_spec, can_auto_apply, check_proposal_id,
    classify_modification_target, classify_spec, generate_proposal_id, generated_proposal_id,
    proposal_id_check, proposal_id_message, valid_proposal_id, worktree_path_for, worktree_path_spec,
};
use crate::text::{append_str, chars_of, debug_str, push_debug_str, string_of, string_views};

verus! {

/// Whether the policy allows a change to the target.
/// Targets classified as Other are never allowed.
pub open spec fn outcome_allowed(target: ModificationTarget, auto_apply: bool) -> bool {
    match target {
        ModificationTarget::Other => false,
        _ => auto_apply,
    }
}

/// The reason codes reported when the verdict is a denial.
pub open spec fn blocked_by_spec(target: ModificationTarget, auto_apply: bool) -> Seq<Seq<char>> {
    if outcome_allowed(target, auto_apply) {
        seq![]
    } else {
        match target {
            ModificationTarget::Other => seq!["target_classified_as_other"@],
            ModificationTarget::Skill => seq!["auto_apply_skills_disabled"@],
            ModificationTarget::Config => seq!["auto_apply_config_disabled"@],
            ModificationTarget::Prompt => seq!["auto_apply_skills_disabled"@],
            ModificationTarget::Source => seq!["auto_apply_source_disabled"@],
        }
    }
}

/// What a dry-run reports for `target_path` under `config` with the given identifier.
pub open spec fn is_dry_run_result(
    res: SelfModificationResult,
    workspace_root: Seq<char>,
    target_path: Seq<char>,
    proposal_id: Seq<char>,
    config: SelfModificationConfig,
) -> bool {
    let target = classify_spec(target_path);
    let auto = auto_apply_spec(config, target);
    &&& res.proposal_id@ == proposal_id
    &&& !res.applied
    &&& res.safety_evaluation.allowed == outcome_allowed(target, auto)
    &&& string_views(res.safety_evaluation.blocked_by@) == blocked_by_spec(target, auto)
    &&& res.safety_evaluation.warnings@.len() == 0
    &&& res.test_passed is None
    &&& !res.rollback_available
    &&& res.worktree_path matches Some(p) && p@ == worktree_path_spec(workspace_root, proposal_id)
    &&& res.pr_url is None
}

/// Errors of the dry-run pipeline.
#[derive(Debug, Clone)]
pub enum SelfModificationPipelineError {
    /// The caller-supplied proposal identifier failed validation.
    ProposalIdOverrideRejected { proposal_id: String, rejection: ProposalIdRejection },
}

impl SelfModificationPipelineError {
    /// `proposal-id-override <id as {:?} prints it> rejected: <reason>`.
    pub fn to_string(&self) -> (s: String)
        ensures
            s@ == match self {
                SelfModificationPipelineError::ProposalIdOverrideRejected {
                    proposal_id,
                    rejection,
                } => "proposal-id-override "@ + debug_str(proposal_id@) + " rejected: "@
                    + proposal_id_message(*rejection),
            },
    {
        match self {
            SelfModificationPipelineError::ProposalIdOverrideRejected { proposal_id, rejection } => {
                let mut out = chars_of("proposal-id-override ");
                push_debug_str(&mut out, proposal_id.as_str());
                append_str(&mut out, " rejected: ");
                let reason = rejection.to_string();
                append_str(&mut out, reason.as_str());
                string_of(&out)
            },
        }
    }
}

/// Whether the policy allows the classified target.
pub fn auto_apply_outcome_allowed(target: &ModificationTarget, auto_apply: bool) -> (b: bool)
    ensures
        b == outcome_allowed(*target, auto_apply),
{
    match target {
        ModificationTarget::Other => false,
        _ => auto_apply,
    }
}

fn single(code: &str) -> (v: Vec<String>)
    ensures
        string_views(v@) == seq![code@],
{
    let mut v: Vec<String> = Vec::new();
    v.push(String::from_str(code));
    assert(string_views(v@) =~= seq![code@]);
    v
}

/// Reason codes for a denied verdict (empty when allowed).
pub fn blocked_by_for(target: &ModificationTarget, auto_apply: bool) -> (v: Vec<String>)
    ensures
        string_views(v@) == blocked_by_spec(*target, auto_apply),
{
    if auto_apply_outcome_allowed(target, auto_apply) {
        let v: Vec<String> = Vec::new();
        assert(string_views(v@) =~= seq![]);
        return v;
    }
    match target {
        ModificationTarget::Other => single("target_classified_as_other"),
        ModificationTarget::Skill => single("auto_apply_skills_disabled"),
        ModificationTarget::Config => single("auto_apply_config_disabled"),
        ModificationTarget::Prompt => single("auto_apply_skills_disabled"),
        ModificationTarget::Source => single("auto_apply_source_disabled"),
    }
}

/// Run the self-modification pipeline in dry-run mode.
///
/// 1. A caller-supplied identifier must pass validation (else the error names
///    it); without one a fresh identifier is generated.
/// 2. The target path is classified and the auto-apply policy applied.
/// 3. The result is never applied; it carries the verdict, the reason codes of
///    a denial and the worktree path
///    `<workspace_root>/.tau/self-mod-worktrees/<proposal_id>`.
pub fn run_dry_run_pipeline(
    workspace_root: &str,
    target_path: &str,
    proposal_id_override: Option<&str>,
    config: &SelfModificationConfig,
) -> (r: Result<SelfModificationResult, SelfModificationPipelineError>)
    ensures
        r is Err <==> (proposal_id_override matches Some(id) && !valid_proposal_id(id@)),
        r matches Err(SelfModificationPipelineError::ProposalIdOverrideRejected {
            proposal_id,
            rejection,
        }) ==> proposal_id_override matches Some(id) && proposal_id@ == id@ && proposal_id_check(
            id@,
        ) == Some(rejection),
        r matches Ok(res) ==> is_dry_run_result(
            res,
            workspace_root@,
            target_path@,
            res.proposal_id@,
            *config,
        ),
        r matches Ok(res) ==> match proposal_id_override {
            Some(id) => res.proposal_id@ == id@,
            None => exists|t: u64| res.proposal_id@ == generated_proposal_id(t),
        },
{
    let proposal_id: String = match proposal_id_override {
        Some(id) => {
            match check_proposal_id(id) {
                Err(rejection) => {
                    return Err(
                        SelfModificationPipelineError::ProposalIdOverrideRejected {
                            proposal_id: String::from_str(id),
                            rejection,
                        },
                    );
                },
                Ok(()) => String::from_str(id),
            }
        },
        None => generate_proposal_id(),
    };
    proof {
        if proposal_id_override is None {
            let t = choose|t: u64| proposal_id@ == generated_proposal_id(t);
            crate::self_modification_runtime::lemma_generated_ids_are_valid(t);
        }
    }
    let target = classify_modification_target(target_path);
    let auto_apply = can_auto_apply(config, &target);
    let worktree_path = match worktree_path_for(workspace_root, proposal_id.as_str()) {
        Ok(p) => p,
        Err(rejection) => {
            // Unreachable: the identifier was validated or generated above.
            return Err(
                SelfModificationPipelineError::ProposalIdOverrideRejected {
                    proposal_id,
                    rejection,
                },
            );
        },
    };
    let allowed = auto_apply_outcome_allowed(&target, auto_apply);
    let blocked_by = blocked_by_for(&target, auto_apply);
    let warnings: Vec<String> = Vec::new();
    Ok(
        SelfModificationResult {
            proposal_id,
            applied: false,
            safety_evaluation: SelfModificationSafetyResult { allowed, blocked_by, warnings },
            test_passed: None,
            rollback_available: false,
            worktree_path: Some(worktree_path),
            pr_url: None,
        },
    )
}

/// A verdict allows the change exactly when it carries no reason codes, and a
/// denial carries exactly one.
pub proof fn lemma_allowed_iff_unblocked(target: ModificationTarget, auto_apply: bool)
    ensures
        outcome_allowed(target, auto_apply) <==> blocked_by_spec(target, auto_apply).len() == 0,
        !outcome_allowed(target, auto_apply) ==> blocked_by_spec(target, auto_apply).len() == 1,
{
}

/// Whatever the configuration, a target classified as `Other` is denied with
/// `target_classified_as_other`, and a dry-run never applies anything.
pub proof fn lemma_other_always_denied(config: SelfModificationConfig)
    ensures
        !outcome_allowed(
            ModificationTarget::Other,
            auto_apply_spec(config, ModificationTarget::Other),
        ),
        blocked_by_spec(
            ModificationTarget::Other,
            auto_apply_spec(config, ModificationTarget::Other),
        ) == seq!["target_classified_as_other"@],
{
}

} // verus!
