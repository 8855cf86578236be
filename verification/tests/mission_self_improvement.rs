use tau_coding_agent::mission_self_improvement::{
    debug_string_list, ensure_apply_eligible, mission_target_kind, plan_mission_apply,
    plan_mission_dry_run, resolve_workspace_target, ApplyEligibilityError, MissionApplyError,
    MissionDryRunError, MissionEvidenceStatus, MissionSelfModificationApplyResult,
    MissionSelfModificationInput, MissionTargetError, MissionTargetKind, ProposalApplyView,
    ProposalStatus, SELF_MOD_ROLLBACKS_SUBDIR,
};
use tau_coding_agent::self_modification_runtime::{ProposalIdRejection, SelfModificationConfig};
use tau_coding_agent::ops_harness_self_improvement::{
    curator_memory_record_id, dry_run_result_key, operator_approval_id, self_modification_config,
    CodingAgentOpsHarnessSelfImprovementRunner,
};

fn approved(kind: Option<MissionTargetKind>) -> ProposalApplyView {
    ProposalApplyView {
        proposal_id: "proposal-1".to_string(),
        target_path: "skills/a.md".to_string(),
        target_kind: kind,
        status: ProposalStatus::Approved,
        has_operator_approval: true,
    }
}

fn approved_input() -> MissionSelfModificationInput {
    MissionSelfModificationInput {
        target_path: "skills/autonomy/retry-loop.md".to_string(),
        proposed_content: "# Retry Loop\n\nAlways attach recovery evidence.\n".to_string(),
        proposal_id: "proposal-skill-1".to_string(),
        source_learning_record_id: "learning-failure-1".to_string(),
        rationale: "The benchmark failed because retry recovery evidence was omitted.".to_string(),
        patch_summary: "Add recovery evidence guidance to retry-loop skill.".to_string(),
        rollback_plan: "Restore the prior skill file from rollback metadata.".to_string(),
        proposed_unix_ms: 1_020,
        dry_run_unix_ms: 1_030,
        test_command: "cargo test -p tau-coding-agent --test mission_self_improvement".to_string(),
        test_passed: true,
        safety_check_id: "self-mod-policy".to_string(),
        has_operator_approval: true,
        curator_memory_record_id: "curator-memory-1".to_string(),
    }
}

#[test]
fn dry_run_records_mission_improvement_proposal_evidence() {
    let config = SelfModificationConfig::default();
    let ev = plan_mission_dry_run("/work", &approved_input(), &config)
        .expect("dry-run should be recorded");
    assert_eq!(ev.result.proposal_id, "proposal-skill-1");
    assert!(!ev.result.applied);
    assert!(ev.result.safety_evaluation.allowed);
    assert_eq!(ev.target_kind, MissionTargetKind::Skill);
    assert_eq!(ev.target_classification, "Skill");
    assert!(ev.dry_run_passed);
    assert_eq!(ev.dry_run_summary, "self-modification dry-run passed policy");
    assert_eq!(ev.test_status, MissionEvidenceStatus::Passed);
    assert_eq!(ev.test_ran_unix_ms, 1_031);
    assert_eq!(ev.test_summary, "operator-supplied validation command passed");
    assert_eq!(ev.safety_status, MissionEvidenceStatus::Passed);
    assert_eq!(ev.safety_ran_unix_ms, 1_032);
    assert_eq!(ev.safety_summary, "self-modification policy allowed target");
    assert!(ev.approve);
}

#[test]
fn dry_run_blocked_by_policy_records_failed_evidence() {
    let mut config = SelfModificationConfig::default();
    config.workspace_root = "/work".to_string();
    let mut input = approved_input();
    input.target_path = ".tau.toml".to_string();
    input.test_passed = false;
    input.has_operator_approval = false;
    input.dry_run_unix_ms = u64::MAX - 1;
    let ev = plan_mission_dry_run("/work", &input, &config).expect("config is a mission target");
    assert_eq!(ev.target_kind, MissionTargetKind::Config);
    assert!(!ev.dry_run_passed);
    assert_eq!(
        ev.dry_run_summary,
        "self-modification dry-run blocked by [\"auto_apply_config_disabled\"]"
    );
    assert_eq!(ev.test_status, MissionEvidenceStatus::Failed);
    assert_eq!(ev.test_ran_unix_ms, u64::MAX);
    assert_eq!(ev.safety_ran_unix_ms, u64::MAX);
    assert_eq!(ev.test_summary, "operator-supplied validation command failed");
    assert_eq!(ev.safety_status, MissionEvidenceStatus::Failed);
    assert_eq!(ev.safety_summary, "self-modification policy blocked target");
    assert!(!ev.approve);
}

#[test]
fn dry_run_rejects_bad_proposal_id_first() {
    let mut input = approved_input();
    input.proposal_id = "a/b".to_string();
    input.target_path = "src/main.rs".to_string();
    match plan_mission_dry_run("/work", &input, &SelfModificationConfig::default()) {
        Err(MissionDryRunError::ProposalIdRejected { proposal_id, rejection }) => {
            assert_eq!(proposal_id, "a/b");
            assert_eq!(rejection, ProposalIdRejection::DisallowedChar('/'));
        }
        other => panic!("unexpected {other:?}"),
    }
}

#[test]
fn debug_lists_match_debug_formatting() {
    let items = vec!["a".to_string(), "b c".to_string()];
    assert_eq!(debug_string_list(&items).into_iter().collect::<String>(), format!("{:?}", items));
    let empty: Vec<String> = Vec::new();
    assert_eq!(debug_string_list(&empty).into_iter().collect::<String>(), "[]");
}

#[test]
fn approved_safe_skill_improvement_applies_file_and_curator_metadata() {
    let input = approved_input();
    let mut p = approved(Some(MissionTargetKind::Skill));
    p.proposal_id = input.proposal_id.clone();
    p.target_path = input.target_path.clone();
    let other = approved(None);
    let plan = plan_mission_apply("/tmp/ws", "/private/tmp/ws", &vec![other, p], &input.proposal_id)
        .expect("approved improvement should apply");
    assert!(plan.target_path.ends_with(&input.target_path));
    assert!(plan.target_path.starts_with("/private/tmp/ws"));
    assert!(plan.rollback_path.starts_with("/tmp/ws"));
    assert_eq!(plan.rollback_root, "/tmp/ws/.tau/self-mod-rollbacks/proposal-skill-1");
    assert_eq!(
        plan.rollback_path,
        "/tmp/ws/.tau/self-mod-rollbacks/proposal-skill-1/previous-content.bin"
    );
    assert_eq!(plan.metadata_path, "/tmp/ws/.tau/self-mod-rollbacks/proposal-skill-1/metadata.json");
}

#[test]
fn apply_plan_errors() {
    let props = vec![approved(Some(MissionTargetKind::Skill))];
    assert_eq!(
        plan_mission_apply("/w", "/w", &props, "missing").unwrap_err(),
        MissionApplyError::ProposalNotFound { proposal_id: "missing".to_string() }
    );
    assert!(matches!(
        plan_mission_apply("/w", "/w", &props, "..").unwrap_err(),
        MissionApplyError::ProposalIdRejected { rejection: ProposalIdRejection::DotOrDotDot, .. }
    ));
    let mut applied = approved(Some(MissionTargetKind::Skill));
    applied.status = ProposalStatus::Applied;
    assert_eq!(
        plan_mission_apply("/w", "/w", &vec![applied], "proposal-1").unwrap_err(),
        MissionApplyError::Ineligible {
            proposal_id: "proposal-1".to_string(),
            reason: ApplyEligibilityError::AlreadyApplied
        }
    );
}

#[test]
fn apply_rejects_source_or_outside_workspace_target() {
    let mut source_input = approved_input();
    source_input.target_path = "crates/tau-coding-agent/src/lib.rs".to_string();
    source_input.proposal_id = "proposal-source-1".to_string();
    source_input.has_operator_approval = false;
    let error = plan_mission_dry_run("/work", &source_input, &SelfModificationConfig::default())
        .expect_err("source targets must be blocked");
    assert!(matches!(
        error,
        MissionDryRunError::Target(MissionTargetError::SourceTarget { .. })
    ));
    let mut escape = approved(Some(MissionTargetKind::Skill));
    escape.proposal_id = "proposal-escape-1".to_string();
    escape.target_path = "../escape.md".to_string();
    assert_eq!(
        plan_mission_apply("/work", "/work", &vec![escape], "proposal-escape-1").unwrap_err(),
        MissionApplyError::Target {
            target_path: "../escape.md".to_string(),
            reason: MissionTargetError::OutsideWorkspace
        }
    );
    let err = mission_target_kind("crates/tau-coding-agent/src/lib.rs").unwrap_err();
    assert_eq!(
        err,
        MissionTargetError::SourceTarget {
            target_path: "crates/tau-coding-agent/src/lib.rs".to_string()
        }
    );
    assert_eq!(
        resolve_workspace_target("/work", "../escape.md").unwrap_err(),
        MissionTargetError::OutsideWorkspace
    );
}

#[test]
fn conservative_targets_have_mission_kinds() {
    assert_eq!(mission_target_kind("skills/a.md"), Ok(MissionTargetKind::Skill));
    assert_eq!(mission_target_kind(".tau.toml"), Ok(MissionTargetKind::Config));
    assert_eq!(mission_target_kind("prompts/x.md"), Ok(MissionTargetKind::Prompt));
    assert!(matches!(
        mission_target_kind("README.md"),
        Err(MissionTargetError::UnrecognizedTarget { .. })
    ));
}

#[test]
fn apply_eligibility_checks_in_order() {
    assert_eq!(ensure_apply_eligible(&approved(Some(MissionTargetKind::Skill))), Ok(()));
    assert_eq!(
        ensure_apply_eligible(&approved(None)),
        Err(ApplyEligibilityError::OutsideConservativeLoop)
    );
    let mut p = approved(Some(MissionTargetKind::Config));
    p.status = ProposalStatus::Applied;
    assert_eq!(ensure_apply_eligible(&p), Err(ApplyEligibilityError::AlreadyApplied));
    p.status = ProposalStatus::Proposed;
    assert_eq!(
        ensure_apply_eligible(&p),
        Err(ApplyEligibilityError::NotApproved(ProposalStatus::Proposed))
    );
    p.status = ProposalStatus::Approved;
    p.has_operator_approval = false;
    assert_eq!(ensure_apply_eligible(&p), Err(ApplyEligibilityError::MissingOperatorApproval));
}

#[test]
fn workspace_targets_stay_inside() {
    assert_eq!(resolve_workspace_target("/work", "skills/./a.md").unwrap(), "/work/skills/a.md");
    assert_eq!(resolve_workspace_target("/work/", "./b//c").unwrap(), "/work/b/c");
    assert_eq!(resolve_workspace_target("/work", "/etc/x").unwrap_err(), MissionTargetError::OutsideWorkspace);
    assert_eq!(resolve_workspace_target("/work", "  ").unwrap_err(), MissionTargetError::EmptyTargetPath);
    assert_eq!(resolve_workspace_target("/work", "./.").unwrap_err(), MissionTargetError::NoNormalComponent);
    assert_eq!(resolve_workspace_target("/work", "a/../b").unwrap_err(), MissionTargetError::OutsideWorkspace);
}

#[test]
fn apply_result_carries_paths() {
    let r = MissionSelfModificationApplyResult {
        proposal_id: "p".to_string(),
        target_path: "/work/skills/a.md".to_string(),
        rollback_path: format!("/work/{SELF_MOD_ROLLBACKS_SUBDIR}/p/previous-content.bin"),
        applied_unix_ms: 5,
        previous_content_existed: false,
    };
    assert_eq!(r.clone(), r);
    assert!(r.rollback_path.contains(".tau/self-mod-rollbacks/p"));
}

#[test]
fn harness_runner_uses_default_policy_for_its_workspace() {
    let runner = CodingAgentOpsHarnessSelfImprovementRunner::new("/srv/ws".to_string());
    let config = runner.config();
    assert_eq!(config.workspace_root, "/srv/ws");
    assert!(config.enabled && config.auto_apply_skills);
    assert!(!config.auto_apply_config && !config.auto_apply_source);
    assert_eq!(self_modification_config("x").workspace_root, "x");
}

#[test]
fn harness_identifiers_and_result_keys() {
    assert_eq!(dry_run_result_key(true), "passed");
    assert_eq!(dry_run_result_key(false), "failed");
    assert_eq!(curator_memory_record_id("OPS-Harness-1"), "curator-ops-harness-1");
    assert_eq!(operator_approval_id("P-1", 1700), "approval-P-1-1700");
}

#[test]
fn mission_errors_carry_the_original_messages() {
    let err = plan_mission_apply("/w", "/w", &vec![], "p-1").unwrap_err();
    assert_eq!(err.to_string(), format!("improvement proposal {:?} was not found", "p-1"));
    let mut escape = approved(Some(MissionTargetKind::Skill));
    escape.target_path = "../escape.md".to_string();
    let err = plan_mission_apply("/w", "/w", &vec![escape], "proposal-1").unwrap_err();
    assert_eq!(err.to_string(), "target path \"../escape.md\" is outside workspace");
    let mut p = approved(Some(MissionTargetKind::Skill));
    p.status = ProposalStatus::Proposed;
    let err = plan_mission_apply("/w", "/w", &vec![p], "proposal-1").unwrap_err();
    assert_eq!(
        err.to_string(),
        "proposal \"proposal-1\" must be approved before apply; status is Proposed"
    );
    let err = plan_mission_apply("/w", "/w", &vec![], "a/b").unwrap_err();
    assert_eq!(
        err.to_string(),
        "proposal_id \"a/b\" rejected: proposal_id contains disallowed character '/'; allowed: [A-Za-z0-9._-]"
    );
    let mut input = approved_input();
    input.target_path = "src/lib.rs".to_string();
    let err = plan_mission_dry_run("/w", &input, &SelfModificationConfig::default()).unwrap_err();
    assert_eq!(
        err.to_string(),
        "target \"src/lib.rs\" is outside conservative loop: unrecognized self-modification target"
    );
    assert_eq!(
        MissionTargetError::EmptyTargetPath.message("  "),
        "target path must not be empty"
    );
    assert_eq!(
        ApplyEligibilityError::MissingOperatorApproval.message("x"),
        "proposal \"x\" is missing operator approval"
    );
}

use tau_coding_agent::ops_harness_self_improvement::{
    ensure_harness_self_improvement_contract, HarnessMissionModel, HarnessProposalSpec,
    PlanNodeModel, VerificationGateModel,
};

fn harness_spec() -> HarnessProposalSpec {
    HarnessProposalSpec {
        proposal_id: "PR-044".to_string(),
        source_learning_record_id: "LR-044".to_string(),
        failure_summary: "Research prompt lost scope.".to_string(),
        root_cause: "prompt too broad".to_string(),
        rollback_plan: "restore prompt".to_string(),
    }
}

fn empty_mission() -> HarnessMissionModel {
    HarnessMissionModel {
        learning_records: Vec::new(),
        acceptance_criteria: Vec::new(),
        plan_dag: Vec::new(),
        allowed_tools: Vec::new(),
        max_tool_calls: None,
        memory_hits: Vec::new(),
        memory_recall: None,
        verification_gates: Vec::new(),
        checkpoints: Vec::new(),
        updated_unix_ms: 0,
    }
}

#[test]
fn harness_contract_seeds_an_empty_mission() {
    let mut m = empty_mission();
    ensure_harness_self_improvement_contract(&mut m, 1_700, &harness_spec());
    assert_eq!(m.learning_records.len(), 1);
    assert_eq!(m.learning_records[0].record_id, "LR-044");
    assert_eq!(m.learning_records[0].created_unix_ms, 1_695);
    let ids: Vec<_> = m.acceptance_criteria.iter().map(|c| c.id.as_str()).collect();
    assert_eq!(ids, vec!["AC-1", "AC-2", "AC-3"]);
    let plan: Vec<_> = m.plan_dag.iter().map(|n| (n.id.as_str(), n.status.as_str())).collect();
    assert_eq!(
        plan,
        vec![
            ("observe-failure", "completed"),
            ("dry-run", "pending"),
            ("operator-approval", "pending"),
            ("apply-update", "pending"),
            ("curate-learning", "pending")
        ]
    );
    assert_eq!(m.plan_dag[2].depends_on, vec!["dry-run".to_string()]);
    assert_eq!(
        m.allowed_tools,
        vec!["self_modification.dry_run", "self_modification.apply", "mission_state.write"]
    );
    assert_eq!(m.max_tool_calls, Some(12));
    assert_eq!(m.memory_hits[0].source_event_key.as_deref(), Some("PR-044"));
    let recall = m.memory_recall.as_ref().expect("recall");
    assert_eq!(recall.query, "self-improvement learning for PR-044");
    assert_eq!(recall.hit_keys, vec!["LR-044".to_string()]);
    let gates: Vec<_> = m.verification_gates.iter().map(|g| g.id.as_str()).collect();
    assert_eq!(gates, vec!["VG-DRY-RUN", "VG-APPROVAL", "VG-APPLY"]);
    assert_eq!(m.checkpoints[0].checkpoint_id, "checkpoint-PR-044-observed");
    assert_eq!(m.checkpoints[0].created_unix_ms, 1_699);
    assert_eq!(m.updated_unix_ms, 1_700);
}

#[test]
fn harness_contract_keeps_progress_and_is_idempotent() {
    let mut m = empty_mission();
    m.plan_dag.push(PlanNodeModel {
        id: "dry-run".to_string(),
        description: "custom".to_string(),
        depends_on: Vec::new(),
        status: "completed".to_string(),
    });
    m.plan_dag.push(PlanNodeModel {
        id: "apply-update".to_string(),
        description: "stale".to_string(),
        depends_on: Vec::new(),
        status: "  ".to_string(),
    });
    m.verification_gates.push(VerificationGateModel {
        id: "VG-DRY-RUN".to_string(),
        description: "old".to_string(),
        status: Some("passed".to_string()),
    });
    m.updated_unix_ms = 5_000;
    ensure_harness_self_improvement_contract(&mut m, 1_700, &harness_spec());
    assert_eq!(m.plan_dag[0].status, "completed");
    assert_eq!(m.plan_dag[0].description, "custom");
    assert_eq!(m.plan_dag[1].status, "pending");
    assert_eq!(m.plan_dag[1].description, "Apply the approved target update with rollback metadata.");
    assert_eq!(m.verification_gates[0].status.as_deref(), Some("passed"));
    assert_eq!(m.updated_unix_ms, 5_000);
    let once = format!("{m:?}");
    ensure_harness_self_improvement_contract(&mut m, 1_700, &harness_spec());
    assert_eq!(format!("{m:?}"), once);
}
