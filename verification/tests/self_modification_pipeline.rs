use tau_coding_agent::self_modification_pipeline::{
    auto_apply_outcome_allowed, blocked_by_for, run_dry_run_pipeline,
};
use tau_coding_agent::self_modification_runtime::{ModificationTarget, SelfModificationConfig};

const WORKSPACE: &str = "/tmp/tau-dry-run-workspace";

#[test]
fn dry_run_happy_path_for_skill_target_under_default_config() {
    let config = SelfModificationConfig::default();
    let result = run_dry_run_pipeline(WORKSPACE, "skills/foo/manifest.toml", None, &config)
        .expect("pipeline should succeed");

    assert!(!result.applied, "dry-run must never apply");
    assert!(result.safety_evaluation.allowed, "skills auto-apply by default");
    assert!(result.safety_evaluation.blocked_by.is_empty());
    assert!(result.worktree_path.is_some());
    let wt = result.worktree_path.as_ref().unwrap();
    assert!(wt.starts_with("/tmp/tau-dry-run-workspace/.tau/self-mod-worktrees/self-mod-"));
}

#[test]
fn dry_run_denies_source_edits_under_default_config() {
    let config = SelfModificationConfig::default();
    let result = run_dry_run_pipeline(WORKSPACE, "crates/tau-ops/src/main.rs", None, &config).unwrap();

    assert!(!result.applied);
    assert!(!result.safety_evaluation.allowed);
    assert_eq!(
        result.safety_evaluation.blocked_by,
        vec!["auto_apply_source_disabled".to_string()]
    );
}

#[test]
fn dry_run_classifies_hostile_target_path_as_other_and_denies() {
    let config = SelfModificationConfig::default();
    let result = run_dry_run_pipeline(WORKSPACE, "../../etc/passwd", None, &config).unwrap();

    assert!(!result.applied);
    assert!(!result.safety_evaluation.allowed);
    assert_eq!(
        result.safety_evaluation.blocked_by,
        vec!["target_classified_as_other".to_string()]
    );
}

#[test]
fn dry_run_rejects_hostile_proposal_id_override_before_any_fs_op() {
    let config = SelfModificationConfig::default();
    let err = run_dry_run_pipeline(
        WORKSPACE,
        "skills/foo/manifest.toml",
        Some("../escape"),
        &config,
    )
    .expect_err("hostile proposal-id override must be rejected");
    let message = err.to_string();
    assert!(
        message.contains("proposal-id-override"),
        "expected proposal-id-override rejection, got: {message}",
    );
}

#[test]
fn dry_run_accepts_explicit_safe_proposal_id_override() {
    let config = SelfModificationConfig::default();
    let result = run_dry_run_pipeline(
        WORKSPACE,
        "skills/foo/manifest.toml",
        Some("deterministic-test-id-1"),
        &config,
    )
    .unwrap();
    assert_eq!(result.proposal_id, "deterministic-test-id-1");
    assert_eq!(
        result.worktree_path.as_deref(),
        Some("/tmp/tau-dry-run-workspace/.tau/self-mod-worktrees/deterministic-test-id-1")
    );
}

#[test]
fn dry_run_accepts_prompt_target_with_skills_auto_apply_enabled() {
    let config = SelfModificationConfig::default();
    let result = run_dry_run_pipeline(WORKSPACE, "assets/template.hbs", None, &config).unwrap();
    assert!(result.safety_evaluation.allowed);
}

#[test]
fn dry_run_result_is_never_applied_and_has_no_rollback() {
    let config = SelfModificationConfig::default();
    let result = run_dry_run_pipeline(WORKSPACE, ".tau.toml", Some("cfg-1"), &config).unwrap();
    assert!(!result.applied);
    assert!(!result.rollback_available);
    assert!(result.pr_url.is_none());
    assert!(result.test_passed.is_none());
    assert_eq!(
        result.safety_evaluation.blocked_by,
        vec!["auto_apply_config_disabled".to_string()]
    );
}

#[test]
fn other_targets_are_denied_even_when_auto_apply_is_on() {
    assert!(!auto_apply_outcome_allowed(&ModificationTarget::Other, true));
    assert!(auto_apply_outcome_allowed(&ModificationTarget::Skill, true));
    assert_eq!(
        blocked_by_for(&ModificationTarget::Prompt, false),
        vec!["auto_apply_skills_disabled".to_string()]
    );
    assert!(blocked_by_for(&ModificationTarget::Source, true).is_empty());
}

#[test]
fn override_rejection_quotes_the_id_as_debug_prints_it() {
    let id = "bad\"id\\x";
    let err = run_dry_run_pipeline("/w", "skills/a.md", Some(id), &SelfModificationConfig::default())
        .unwrap_err();
    assert_eq!(
        err.to_string(),
        format!(
            "proposal-id-override {:?} rejected: proposal_id contains disallowed character '\"'; allowed: [A-Za-z0-9._-]",
            id
        )
    );
}
