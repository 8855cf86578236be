use tau_coding_agent::self_modification_synthesis::{finish_synthesis, LlmProposal};
use tau_coding_agent::self_modification_tool::{
    ProposeArgs, ProposeToolOutcome, SelfModificationProposeTool,
};

fn synthesize(target: &str, change_type: &str, rationale: &str) -> String {
    let out = finish_synthesis(Ok(LlmProposal {
        target: target.to_string(),
        change_type: change_type.to_string(),
        rationale: rationale.to_string(),
        proposed_diff: None,
    }))
    .expect("synthesis must succeed");
    out.target
}

fn propose(target: String) -> ProposeToolOutcome {
    SelfModificationProposeTool::new().execute(
        Some("1"),
        Ok(ProposeArgs { target, proposal_id: None, workspace_root: Some("/tmp/ws".to_string()) }),
    )
}

#[test]
fn synthesize_output_is_directly_consumable_by_propose_tool() {
    let target = synthesize(
        "skills/autonomy/improve-retry-loop.md",
        "skill",
        "retry logic needs explicit backoff guidance",
    );
    assert_eq!(target, "skills/autonomy/improve-retry-loop.md");
    let ProposeToolOutcome::Proposed(result) = propose(target) else {
        panic!("propose must accept synthesis output");
    };
    assert!(result.safety_evaluation.allowed, "skill target must be allowed by default config");
    assert!(!result.applied, "propose tool must never apply (dry-run only)");
}

#[test]
fn synthesize_output_with_would_be_blocked_target_still_chains_cleanly_to_propose() {
    let out = finish_synthesis(Ok(LlmProposal {
        target: "crates/tau-ops/src/main.rs".to_string(),
        change_type: "source".to_string(),
        rationale: "add a new CLI flag".to_string(),
        proposed_diff: None,
    }))
    .expect("synthesis must succeed");
    assert_eq!(out.policy_projected, "would_be_blocked");
    let ProposeToolOutcome::Proposed(result) = propose(out.target) else {
        panic!("propose must accept synthesis output");
    };
    assert!(!result.safety_evaluation.allowed);
    assert!(result
        .safety_evaluation
        .blocked_by
        .iter()
        .any(|code| code == "auto_apply_source_disabled"));
    assert!(!result.applied);
}
