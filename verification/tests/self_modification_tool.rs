use tau_coding_agent::self_modification_tool::{
    autonomous_flag_enabled, ProposeArgs, ProposeToolOutcome, SelfModificationProposeTool,
    TOOL_NAME,
};

fn refusal_code(outcome: &ProposeToolOutcome) -> Option<&str> {
    match outcome {
        ProposeToolOutcome::Refused { reason_code, .. } => Some(reason_code.as_str()),
        ProposeToolOutcome::Proposed(_) => None,
    }
}

fn args(target: &str, workspace_root: Option<&str>) -> ProposeArgs {
    ProposeArgs {
        target: target.to_string(),
        proposal_id: None,
        workspace_root: workspace_root.map(|s| s.to_string()),
    }
}

#[test]
fn self_modification_tool_definition_uses_canonical_tool_name() {
    assert_eq!(TOOL_NAME, "self_modification_propose");
}

#[test]
fn self_modification_tool_execute_refuses_when_env_gate_is_off() {
    let tool = SelfModificationProposeTool::new();
    let result = tool.execute(None, Ok(args("skills/foo.md", None)));
    assert_eq!(refusal_code(&result), Some("autonomous_self_mod_disabled"));
}

#[test]
fn execute_refuses_when_env_gate_is_literal_zero() {
    let tool = SelfModificationProposeTool::new();
    let result = tool.execute(Some("0"), Ok(args("skills/foo.md", None)));
    assert_eq!(refusal_code(&result), Some("autonomous_self_mod_disabled"));
}

#[test]
fn execute_rejects_invalid_arguments_when_enabled() {
    let tool = SelfModificationProposeTool::new();
    let result = tool.execute(Some("1"), Err("missing field `target`".to_string()));
    assert_eq!(refusal_code(&result), Some("invalid_arguments"));
}

#[test]
fn execute_runs_pipeline_when_enabled_for_allowed_target() {
    let tool = SelfModificationProposeTool::new();
    let result = tool.execute(Some("1"), Ok(args("skills/foo/manifest.toml", Some("/tmp/ws"))));
    let ProposeToolOutcome::Proposed(res) = result else {
        panic!("expected a proposal");
    };
    assert!(!res.applied);
    assert!(res.safety_evaluation.allowed);
}

#[test]
fn execute_surfaces_policy_denial_for_source_target() {
    let tool = SelfModificationProposeTool::new();
    let result = tool.execute(Some("TRUE"), Ok(args("crates/tau-ops/src/main.rs", Some("/tmp/ws"))));
    let ProposeToolOutcome::Proposed(res) = result else {
        panic!("expected a proposal");
    };
    assert!(!res.safety_evaluation.allowed);
    assert!(res
        .safety_evaluation
        .blocked_by
        .iter()
        .any(|v| v == "auto_apply_source_disabled"));
}

#[test]
fn execute_reports_pipeline_failure_for_hostile_proposal_id() {
    let tool = SelfModificationProposeTool::new();
    let mut a = args("skills/foo.md", None);
    a.proposal_id = Some("../x".to_string());
    let result = tool.execute(Some("1"), Ok(a));
    assert_eq!(refusal_code(&result), Some("pipeline_failed"));
}

#[test]
fn gate_accepts_one_and_true_in_any_case_only() {
    assert!(autonomous_flag_enabled(Some("1")));
    assert!(autonomous_flag_enabled(Some("tRuE")));
    assert!(!autonomous_flag_enabled(Some("yes")));
    assert!(!autonomous_flag_enabled(Some(" 1")));
    assert!(!autonomous_flag_enabled(None));
}
