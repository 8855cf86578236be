use tau_coding_agent::self_modification_runtime::SelfModificationConfig;
use tau_coding_agent::self_modification_synthesis::{
    check_llm_output, check_synthesis_request, classify_for_projection, finish_synthesis,
    llm_call_refusal, llm_json_text, validate_target_path, LlmProposal, SynthesisRefusal,
    SynthesizeArgs, SynthesizedProposal, TargetPathRejection, TOOL_NAME,
};

/// Reads the model's reply the way the tool does: size check, fence
/// stripping, then a JSON read into a proposal.
fn run_reply(reply: &str) -> Result<SynthesizedProposal, SynthesisRefusal> {
    let json = check_llm_output(reply)?;
    let parsed = match serde_json::from_str::<serde_json::Value>(&json) {
        Ok(v) => {
            let field = |k: &str| v.get(k).and_then(|x| x.as_str()).map(|s| s.to_string());
            match (field("target"), field("change_type"), field("rationale")) {
                (Some(target), Some(change_type), Some(rationale)) => Ok(LlmProposal {
                    target,
                    change_type,
                    rationale,
                    proposed_diff: field("proposed_diff"),
                }),
                _ => Err("missing field".to_string()),
            }
        }
        Err(e) => Err(e.to_string()),
    };
    finish_synthesis(parsed)
}

fn request(gate: Option<&str>, intent: &str) -> Result<SynthesizeArgs, SynthesisRefusal> {
    check_synthesis_request(
        gate,
        Ok(SynthesizeArgs { intent: intent.to_string(), workspace_root: None }),
    )
}

#[test]
fn self_modification_synthesis_tool_definition_uses_canonical_tool_name() {
    assert_eq!(TOOL_NAME, "self_modification_synthesize");
}

#[test]
fn self_modification_synthesis_tool_execute_refuses_when_env_gate_is_off() {
    let err = request(None, "anything").expect_err("gate is off");
    assert_eq!(err.reason_code, "autonomous_self_mod_disabled");
}

#[test]
fn execute_rejects_empty_intent_when_enabled() {
    let err = request(Some("1"), "   ").expect_err("empty intent");
    assert_eq!(err.reason_code, "invalid_arguments");
}

#[test]
fn execute_returns_structured_proposal_on_happy_path() {
    assert!(request(Some("1"), "add bar section to foo skill").is_ok());
    let llm_reply = r#"{
            "target": "skills/foo.md",
            "change_type": "skill",
            "rationale": "foo skill needs a bar section",
            "proposed_diff": null
        }"#;
    let out = run_reply(llm_reply).expect("proposal");
    assert_eq!(out.target, "skills/foo.md");
    assert_eq!(out.change_type, "skill");
    assert_eq!(out.policy_projected, "auto_apply");
}

#[test]
fn execute_rejects_path_traversal_in_llm_output() {
    let llm_reply = r#"{
            "target": "../../etc/passwd",
            "change_type": "source",
            "rationale": "evil",
            "proposed_diff": null
        }"#;
    let err = run_reply(llm_reply).expect_err("traversal");
    assert_eq!(err.reason_code, "invalid_target_path");
}

#[test]
fn execute_rejects_absolute_path_in_llm_output() {
    let llm_reply = r#"{
            "target": "/etc/passwd",
            "change_type": "source",
            "rationale": "also evil",
            "proposed_diff": null
        }"#;
    let err = run_reply(llm_reply).expect_err("absolute");
    assert_eq!(err.reason_code, "invalid_target_path");
}

#[test]
fn execute_rejects_invalid_change_type() {
    let llm_reply = r#"{
            "target": "skills/foo.md",
            "change_type": "wingding",
            "rationale": "r",
            "proposed_diff": null
        }"#;
    let err = run_reply(llm_reply).expect_err("change type");
    assert_eq!(err.reason_code, "invalid_change_type");
}

#[test]
fn execute_surfaces_malformed_json_as_llm_output_malformed() {
    let err = run_reply("not json at all").expect_err("malformed");
    assert_eq!(err.reason_code, "llm_output_malformed");
}

#[test]
fn execute_surfaces_llm_transport_error() {
    let err = llm_call_refusal("invalid response: upstream 503");
    assert_eq!(err.reason_code, "llm_call_failed");
    assert_eq!(err.message, "invalid response: upstream 503");
}

#[test]
fn execute_tolerates_markdown_fenced_json() {
    let llm_reply = "```json\n{\n  \"target\": \"skills/a.md\",\n  \"change_type\": \"skill\",\n  \"rationale\": \"r\",\n  \"proposed_diff\": null\n}\n```";
    assert!(run_reply(llm_reply).is_ok());
}

#[test]
fn intent_longer_than_limit_is_refused() {
    let long = "x".repeat(4097);
    let err = request(Some("1"), &long).expect_err("too large");
    assert_eq!(err.reason_code, "intent_too_large");
    assert!(request(Some("1"), &"x".repeat(4096)).is_ok());
}

#[test]
fn oversized_llm_output_is_refused() {
    let big = "a".repeat(32769);
    let err = check_llm_output(&big).expect_err("too large");
    assert_eq!(err.reason_code, "llm_output_too_large");
    assert_eq!(err.message, "LLM output exceeds 32768 bytes (32769 bytes received)");
}

#[test]
fn fence_stripping_handles_plain_fences() {
    assert_eq!(llm_json_text("  ```\n{}\n```  "), "{}");
    assert_eq!(llm_json_text("```json{\"a\":1}```"), "{\"a\":1}");
    assert_eq!(llm_json_text(" {} "), "{}");
}

#[test]
fn target_path_rejections_are_specific() {
    assert_eq!(validate_target_path(""), Err(TargetPathRejection::Empty));
    assert_eq!(validate_target_path("\\abs"), Err(TargetPathRejection::Absolute));
    assert_eq!(validate_target_path("a\\..\\b"), Err(TargetPathRejection::Traversal));
    assert_eq!(validate_target_path("a b"), Err(TargetPathRejection::DisallowedChar(' ')));
    assert_eq!(
        TargetPathRejection::DisallowedChar(' ').to_string(),
        "target path contains disallowed character: ' '"
    );
    assert_eq!(validate_target_path(&"a".repeat(4097)), Err(TargetPathRejection::TooLong));
    assert_eq!(validate_target_path("skills/a-b_c.md"), Ok(()));
}

#[test]
fn projection_follows_default_policy() {
    let config = SelfModificationConfig::default();
    assert_eq!(classify_for_projection("skills/x.md", &config), "auto_apply");
    assert_eq!(classify_for_projection("crates/a/src/lib.rs", &config), "would_be_blocked");
}

#[test]
fn target_path_messages_quote_characters_as_debug_prints_them() {
    for ch in [' ', '\'', '\u{0}', '\u{1b}', '*'] {
        assert_eq!(
            TargetPathRejection::DisallowedChar(ch).to_string(),
            format!("target path contains disallowed character: {ch:?}")
        );
    }
    assert_eq!(TargetPathRejection::TooLong.to_string(), "target path exceeds 4096 bytes");
}

#[test]
fn target_paths_with_dot_dot_anywhere_are_traversal() {
    assert_eq!(validate_target_path("skills/a..b.md"), Err(TargetPathRejection::Traversal));
    assert_eq!(validate_target_path("skills/..hidden"), Err(TargetPathRejection::Traversal));
    assert_eq!(validate_target_path("skills/a.b.md"), Ok(()));
}

#[test]
fn refusal_messages_follow_the_tool() {
    let bad = "we\"ird\n";
    let err = finish_synthesis(Ok(LlmProposal {
        target: "skills/a.md".to_string(),
        change_type: bad.to_string(),
        rationale: "r".to_string(),
        proposed_diff: None,
    }))
    .unwrap_err();
    assert_eq!(
        err.message,
        format!(
            "change_type {:?} is not one of {:?}",
            bad,
            ["skill", "prompt", "config", "source", "other"]
        )
    );
    let err = finish_synthesis(Err("expected value".to_string())).unwrap_err();
    assert_eq!(err.message, "LLM output is not a valid proposal JSON: expected value");
    let err = finish_synthesis(Ok(LlmProposal {
        target: "../x".to_string(),
        change_type: "skill".to_string(),
        rationale: "r".to_string(),
        proposed_diff: None,
    }))
    .unwrap_err();
    assert_eq!(err.message, "target path contains parent-directory traversal");
    let err = check_synthesis_request(None, Err("bad".to_string())).unwrap_err();
    assert_eq!(
        err.message,
        "autonomous self-modification is disabled; set TAU_AUTONOMOUS_SELF_MOD=1 to enable synthesis"
    );
    let err = check_synthesis_request(Some("1"), Err("bad".to_string())).unwrap_err();
    assert_eq!(err.message, "failed to parse tool arguments: bad");
    let big = "x".repeat(40_000);
    let err = check_llm_output(&big).unwrap_err();
    assert_eq!(err.message, "LLM output exceeds 32768 bytes (40000 bytes received)");
}
