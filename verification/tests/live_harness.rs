use serde_json::Value;
use tau_coding_agent::live_harness::{
    harness_json_candidates, provider_edit_from_response, provider_fenced_json_candidates,
    provider_report_satisfies_mode, redact_secret_like_tokens, render_provider_repair_context,
    response_sha256, select_provider_payload, short_error, HarnessMode, ProviderEditOutcome,
    ProviderEditPayload, ProviderEditPayloadEntry, ProviderProofReport, ProviderRepairContext,
    ProviderUsageReport, ProviderVerifierFailureContext,
};

fn entry(v: &Value) -> Option<ProviderEditPayloadEntry> {
    Some(ProviderEditPayloadEntry {
        relative_path: v.get("relative_path")?.as_str()?.to_string(),
        contents: v.get("contents")?.as_str()?.to_string(),
        reason_code: v.get("reason_code").and_then(|r| r.as_str()).map(|r| r.to_string()),
    })
}

/// The JSON reading of a payload: one edit, a list of edits, or a file map.
fn read_payload(text: &str) -> Result<ProviderEditPayload, String> {
    let v: Value = serde_json::from_str(text).map_err(|e| e.to_string())?;
    if let Some(e) = entry(&v) {
        return Ok(ProviderEditPayload::Single(e));
    }
    if let Some(list) = v.get("edits").and_then(|x| x.as_array()) {
        let edits: Option<Vec<_>> = list.iter().map(entry).collect();
        if let Some(edits) = edits {
            return Ok(ProviderEditPayload::Multi { edits });
        }
    }
    if let Some(files) = v.get("files").and_then(|x| x.as_object()) {
        let mut pairs: Vec<(String, String)> = Vec::new();
        for (k, val) in files {
            pairs.push((k.clone(), val.as_str().ok_or("file contents must be text")?.to_string()));
        }
        pairs.sort();
        return Ok(ProviderEditPayload::FileMap {
            files: pairs,
            reason_code: v.get("reason_code").and_then(|r| r.as_str()).map(|r| r.to_string()),
        });
    }
    Err("data did not match any variant of untagged enum ProviderEditPayload".to_string())
}

fn parse(response_text: &str) -> Result<(ProviderEditPayload, &'static str), String> {
    let trimmed = response_text.trim();
    let direct = read_payload(trimmed);
    let candidates = if direct.is_ok() { Vec::new() } else { harness_json_candidates(trimmed) };
    let parses = candidates.iter().map(|c| read_payload(c.trim()).ok()).collect();
    select_provider_payload(response_text, &candidates, direct, parses)
}

fn outcome(
    attempt_index: usize,
    repair: Option<&ProviderRepairContext>,
    usage: Option<ProviderUsageReport>,
    finish_reason: Option<&str>,
    response_text: &str,
) -> ProviderEditOutcome {
    provider_edit_from_response(
        attempt_index,
        "mock",
        "openai",
        "test-model",
        repair,
        true,
        finish_reason.map(|s| s.to_string()),
        usage,
        response_text,
        parse(response_text),
    )
}

fn repair_context_fixture() -> ProviderRepairContext {
    ProviderRepairContext {
        failed_verifiers: vec![ProviderVerifierFailureContext {
            argv: vec![
                "grep".to_string(),
                "-q".to_string(),
                "repaired".to_string(),
                "notes.txt".to_string(),
            ],
            exit_status: Some(1),
            stdout: String::new(),
            stderr: "expected repaired notes.txt".to_string(),
        }],
        changed_files: vec!["status.txt".to_string()],
        git_diff: "diff --git a/status.txt b/status.txt\n+pass\n".to_string(),
    }
}

#[test]
fn provider_backed_parses_json_edit() {
    let out = outcome(
        1,
        None,
        Some(ProviderUsageReport {
            input_tokens: 10,
            output_tokens: 8,
            total_tokens: 18,
            cached_input_tokens: 2,
        }),
        Some("stop"),
        r#"{"relative_path":"status.txt","contents":"pass","reason_code":"provider_test"}"#,
    );
    let ProviderEditOutcome::Ready { edits, report } = out else {
        panic!("provider edit should parse");
    };
    assert_eq!(edits.len(), 1);
    assert_eq!(edits[0].relative_path, "status.txt");
    assert_eq!(edits[0].contents, "pass\n");
    assert_eq!(edits[0].reason_code, "provider_test");
    assert_eq!(report.parse_status, "parsed");
    assert_eq!(report.attempt_index, 1);
    assert!(!report.repair_context_included);
    assert_eq!(report.edit_relative_path.as_deref(), Some("status.txt"));
    assert_eq!(report.usage.as_ref().map(|usage| usage.total_tokens), Some(18));
    assert!(report.response_text_sha256.is_some());
}

#[test]
fn provider_backed_parses_json_edit_array() {
    let repair = repair_context_fixture();
    let out = outcome(
        2,
        Some(&repair),
        None,
        Some("stop"),
        r#"{"edits":[{"relative_path":"status.txt","contents":"pass","reason_code":"provider_status"},{"relative_path":"docs/notes.txt","contents":"helper\n","reason_code":"provider_notes"}]}"#,
    );
    let ProviderEditOutcome::Ready { edits, report } = out else {
        panic!("provider edit array should parse");
    };
    assert_eq!(edits.len(), 2);
    assert_eq!(edits[0].relative_path, "status.txt");
    assert_eq!(edits[0].contents, "pass\n");
    assert_eq!(edits[1].relative_path, "docs/notes.txt");
    assert_eq!(edits[1].contents, "helper\n");
    assert_eq!(report.parse_status, "parsed");
    assert_eq!(report.attempt_index, 2);
    assert!(report.repair_context_included);
    assert_eq!(report.failed_verifier_count, 1);
    assert_eq!(report.diff_context_bytes, Some(repair.git_diff.len()));
    assert_eq!(report.edit_relative_path.as_deref(), Some("status.txt,docs/notes.txt"));
}

#[test]
fn provider_backed_extracts_fenced_json_edit_array() {
    let out = outcome(
        1,
        None,
        None,
        Some("stop"),
        "Here is the edit set:\n```json\n{\"edits\":[{\"relative_path\":\"index.html\",\"contents\":\"<!doctype html>\\n\",\"reason_code\":\"provider_index\"},{\"relative_path\":\"src/main.js\",\"contents\":\"console.log('ok');\\n\",\"reason_code\":\"provider_main\"}]}\n```",
    );
    let ProviderEditOutcome::Ready { edits, report } = out else {
        panic!("provider fenced edit array should parse");
    };
    assert_eq!(report.parse_status, "extracted_json");
    assert_eq!(report.edit_relative_path.as_deref(), Some("index.html,src/main.js"));
    assert_eq!(edits.len(), 2);
    assert_eq!(edits[0].relative_path, "index.html");
    assert_eq!(edits[1].relative_path, "src/main.js");
}

#[test]
fn provider_backed_parses_file_map_payload() {
    let out = outcome(
        1,
        None,
        None,
        Some("stop"),
        r#"{"files":{"index.html":"<!doctype html>\n","src/main.js":"console.log('ok');\n"},"reason_code":"provider_files"}"#,
    );
    let ProviderEditOutcome::Ready { edits, report } = out else {
        panic!("provider file map should parse");
    };
    assert_eq!(report.parse_status, "parsed");
    assert_eq!(edits.len(), 2);
    assert_eq!(edits[0].reason_code, "provider_files");
    assert_eq!(edits[1].reason_code, "provider_files");
    assert_eq!(report.edit_relative_path.as_deref(), Some("index.html,src/main.js"));
}

#[test]
fn provider_backed_extracted_json_satisfies_provider_modes() {
    let report = ProviderProofReport {
        attempt_index: 1,
        mode: "live",
        provider: "openrouter".to_string(),
        model: "qwen/qwen3.7-max".to_string(),
        dispatched: true,
        parse_status: "extracted_json",
        reason_code: "provider_edit_parsed".to_string(),
        finish_reason: Some("stop".to_string()),
        usage: None,
        response_text_bytes: Some(128),
        response_text_sha256: Some("abc123".to_string()),
        edit_relative_path: Some("status.txt,src/main.js".to_string()),
        edit_reason_code: Some("provider_fix".to_string()),
        repair_context_included: false,
        failed_verifier_count: 0,
        diff_context_bytes: None,
        error: None,
    };

    assert!(provider_report_satisfies_mode(HarnessMode::ProviderSuccess, Some(&report)));
    assert!(provider_report_satisfies_mode(HarnessMode::RealRepo, Some(&report)));
}

#[test]
fn provider_backed_malformed_response_fails_closed() {
    let repair = repair_context_fixture();
    let out = outcome(3, Some(&repair), None, None, "not-json");
    let ProviderEditOutcome::Failed(report) = out else {
        panic!("malformed provider output should fail");
    };
    assert_eq!(report.parse_status, "malformed");
    assert_eq!(report.reason_code, "provider_output_malformed");
    assert_eq!(report.attempt_index, 3);
    assert!(report.repair_context_included);
    assert!(report.edit_relative_path.is_none());
    assert!(report.response_text_sha256.is_some());
}

#[test]
fn provider_backed_rejects_path_escape() {
    let out = outcome(1, None, None, None, r#"{"relative_path":"../status.txt","contents":"pass\n"}"#);
    let ProviderEditOutcome::Failed(report) = out else {
        panic!("escaping provider edit should fail");
    };
    assert_eq!(report.parse_status, "invalid_edit");
    assert_eq!(report.reason_code, "provider_edit_invalid");
    assert!(report.edit_relative_path.is_none());
}

#[test]
fn provider_repair_context_render_includes_verifier_and_diff() {
    let rendered = render_provider_repair_context(&repair_context_fixture());

    assert!(rendered.contains("Repair attempt context"));
    assert!(rendered.contains("grep -q repaired notes.txt"));
    assert!(rendered.contains("expected repaired"));
    assert!(rendered.contains("status.txt"));
    assert!(rendered.contains("+pass"));
}

#[test]
fn provider_backed_redacts_key_shaped_error_tokens() {
    let redacted = short_error("provider returned 401 for sk-proj-abc123 and ANTHROPIC_API_KEY");

    assert!(redacted.contains("[REDACTED_API_KEY]"));
    assert!(!redacted.contains("sk-proj-abc123"));
    assert!(!redacted.contains("ANTHROPIC_API_KEY"));
}

#[test]
fn response_digest_is_sha256_hex() {
    assert_eq!(
        response_sha256("abc"),
        "ba7816bf8f01cfea414140de5dae2223b00361a396177a9cb410ff61f20015ad"
    );
    assert_eq!(response_sha256("abc").len(), 64);
}

#[test]
fn fenced_candidates_strip_json_tag_and_skip_empty_blocks() {
    assert_eq!(
        provider_fenced_json_candidates("a ```json\n{\"x\":1}``` b ```  ``` c ```JSON {}```"),
        vec!["{\"x\":1}".to_string(), "{}".to_string()]
    );
    assert!(provider_fenced_json_candidates("```unclosed").is_empty());
    assert_eq!(
        harness_json_candidates("say {\"a\":{\"b\":2}} done"),
        vec!["{\"a\":{\"b\":2}}".to_string()]
    );
}

#[test]
fn redaction_leaves_ordinary_words_alone() {
    assert_eq!(redact_secret_like_tokens("plain words only"), "plain words only");
}

use tau_coding_agent::live_harness::{
    harness_mission_plan, live_loop_verdict, pr_ready_texts, provider_attempt_started_unix_ms,
    provider_attempt_total, provider_loop_step, LiveLoopEvidence, ProviderAttemptResult,
    ProviderLoopStep,
};

#[test]
fn mission_plan_depends_on_mode() {
    let plan = harness_mission_plan(HarnessMode::ProviderSuccess, "run-7", &Vec::new()).unwrap();
    assert_eq!(plan.mission_id, "run-7-provider_success");
    assert_eq!(plan.session_key, "session-run-7-provider_success");
    assert_eq!(plan.verifier_commands, vec!["grep -q pass status.txt".to_string()]);
    assert_eq!(plan.issue_url, "https://github.com/njfio/Tau/issues/3654");
    assert_eq!(
        harness_mission_plan(HarnessMode::RealRepo, "r", &Vec::new()).unwrap_err(),
        "real-repo mode requires at least one --verifier-command"
    );
    let real = harness_mission_plan(HarnessMode::RealRepo, "r", &vec!["cargo test".to_string()]).unwrap();
    assert_eq!(real.branch_prefix, "codex/issue-3792-real-repo-harness");
    assert_eq!(real.verifier_commands, vec!["cargo test".to_string()]);
    let blocked = harness_mission_plan(HarnessMode::Blocked, "b", &Vec::new()).unwrap();
    assert_eq!(blocked.verifier_commands, vec!["definitely-not-a-tau-command".to_string()]);
    assert_eq!(pr_ready_texts(HarnessMode::Success).0, "M334 live coding loop fixture");
}

fn evidence() -> LiveLoopEvidence {
    LiveLoopEvidence {
        phase_pr_ready: true,
        phase_blocked: false,
        pr_ready_bundle: true,
        commit_recorded: true,
        commit_hash_recorded: true,
        verifier_statuses: vec!["failed".to_string(), "succeeded".to_string()],
        changed_files_count: 1,
        blocked_reason: None,
    }
}

#[test]
fn verdict_requires_red_then_green_evidence() {
    assert_eq!(live_loop_verdict(HarnessMode::Success, &evidence(), None), (true, Vec::new()));
    let mut e = evidence();
    e.verifier_statuses = vec!["succeeded".to_string()];
    assert_eq!(
        live_loop_verdict(HarnessMode::Resume, &e, None),
        (false, vec!["success_or_resume_case_missing_required_evidence".to_string()])
    );
    assert_eq!(
        live_loop_verdict(HarnessMode::ProviderSuccess, &evidence(), None),
        (false, vec!["provider_success_case_missing_required_evidence".to_string()])
    );
    let blocked = LiveLoopEvidence {
        phase_pr_ready: false,
        phase_blocked: true,
        pr_ready_bundle: false,
        commit_recorded: false,
        commit_hash_recorded: false,
        verifier_statuses: Vec::new(),
        changed_files_count: 0,
        blocked_reason: Some("verifier_command_failed_to_start".to_string()),
    };
    assert!(live_loop_verdict(HarnessMode::Blocked, &blocked, None).0);
}

#[test]
fn provider_attempt_loop_blocks_when_exhausted() {
    assert_eq!(provider_attempt_total(2), 3);
    assert_eq!(provider_attempt_total(usize::MAX), usize::MAX);
    assert_eq!(provider_attempt_started_unix_ms(10, 2), 4_010);
    assert_eq!(provider_attempt_started_unix_ms(u64::MAX - 1, 1), u64::MAX);
    let red = ProviderAttemptResult::Applied { verifier_passed: false, pr_ready: false, blocked: false };
    assert_eq!(provider_loop_step(1, 2, red.clone()), ProviderLoopStep::NextAttempt { attempt_index: 2 });
    assert_eq!(
        provider_loop_step(2, 2, red),
        ProviderLoopStep::Block {
            reason_code: "provider_repair_attempts_exhausted".to_string(),
            detail: "provider verifier repair attempts exhausted before verifiers passed".to_string(),
        }
    );
    let green = ProviderAttemptResult::Applied { verifier_passed: true, pr_ready: false, blocked: false };
    assert_eq!(provider_loop_step(1, 2, green), ProviderLoopStep::Finished);
    let failed = ProviderAttemptResult::Failed { reason_code: "provider_edit_invalid".to_string(), error: None };
    assert_eq!(
        provider_loop_step(1, 2, failed),
        ProviderLoopStep::Block {
            reason_code: "provider_edit_invalid".to_string(),
            detail: "provider_edit_invalid".to_string(),
        }
    );
}

use tau_coding_agent::live_harness::{
    provider_prompt_text, provider_repo_context_text, render_repo_file_snippets,
    repo_snippet_candidates, RepoFileSnippet, PROVIDER_PROMPT_TAIL,
};

const EXPECTED_TAIL: &str = "Return valid JSON only. Return a complete edit set for all files needed in this single response; do not rely on later turns. Use either the legacy single-edit shape, this multi-edit shape:\n{\"edits\":[{\"relative_path\":\"path/from/repo/root\",\"contents\":\"file contents\",\"reason_code\":\"provider_fix\"}]}\nor this compact file-map shape:\n{\"files\":{\"path/from/repo/root\":\"file contents\"},\"reason_code\":\"provider_fix\"}";

#[test]
fn provider_prompt_lays_out_goal_context_and_commands() {
    assert_eq!(PROVIDER_PROMPT_TAIL, EXPECTED_TAIL);
    let cmds = vec!["cargo test".to_string(), "cargo fmt --check".to_string()];
    let prompt = provider_prompt_text("Make status pass", "/tmp/repo", "ctx", &cmds, None);
    assert_eq!(
        prompt,
        format!(
            "Goal:\nMake status pass\n\nRepository root:\n/tmp/repo\n\nRepository context:\nctx\n\nVerifier commands:\ncargo test\ncargo fmt --check\n\n\n{EXPECTED_TAIL}"
        )
    );
    let repair = ProviderRepairContext {
        failed_verifiers: Vec::new(),
        changed_files: Vec::new(),
        git_diff: String::new(),
    };
    let with_repair = provider_prompt_text("g", "/r", "c", &cmds, Some(&repair));
    assert!(with_repair.contains("\n\nRepair attempt context:\n"));
    assert!(with_repair.ends_with(EXPECTED_TAIL));
}

#[test]
fn repo_context_marks_clean_and_empty_listings() {
    assert_eq!(
        provider_repo_context_text("  \n", "", "none"),
        "Git status:\nclean\n\nTracked and untracked files:\nnone\n\nFile snippets:\nnone"
    );
    assert_eq!(
        provider_repo_context_text(" M src/lib.rs\n", "src/lib.rs\nstatus.txt\n", "S"),
        "Git status:\nM src/lib.rs\n\nTracked and untracked files:\nsrc/lib.rs\nstatus.txt\n\nFile snippets:\nS"
    );
    let long = "x".repeat(2_001);
    let ctx = provider_repo_context_text(&long, "a", "");
    assert!(ctx.starts_with(&format!("Git status:\n{}\n[truncated]\n\n", "x".repeat(2_000))));
}

#[test]
fn snippet_candidates_skip_hidden_and_escaping_paths() {
    let files = ".git/HEAD\n src/lib.rs \n\n/etc/passwd\n../x\n.tau/state.json\na/../b\nREADME.md\r\n";
    assert_eq!(repo_snippet_candidates(files), vec!["src/lib.rs", "README.md"]);
    let many: String = (0..14).map(|i| format!("f{i}.txt\n")).collect();
    let got = repo_snippet_candidates(&many);
    assert_eq!(got.len(), 12);
    assert_eq!(got[11], "f11.txt");
    let with_escape = format!("../up\n{many}");
    let got = repo_snippet_candidates(&with_escape);
    assert_eq!(got.len(), 11);
    assert_eq!(got[10], "f10.txt");
}

#[test]
fn file_snippets_are_redacted_and_joined() {
    assert_eq!(render_repo_file_snippets(&Vec::new()), "none");
    let snippets = vec![
        RepoFileSnippet { relative_path: "a.txt".to_string(), contents: "key sk-abc\nend".to_string() },
        RepoFileSnippet { relative_path: "b.txt".to_string(), contents: "pass\n".to_string() },
    ];
    assert_eq!(
        render_repo_file_snippets(&snippets),
        "--- a.txt ---\nkey [REDACTED_API_KEY] end\n\n--- b.txt ---\npass"
    );
}

use tau_coding_agent::live_harness::{repair_failure_positions, CommandEvidenceView};

#[test]
fn repair_context_takes_the_four_newest_failed_verifiers() {
    let ev = |code: &str, failed: bool| CommandEvidenceView { reason_code: code.to_string(), failed };
    let evidence = vec![
        ev("coding_verifier_1", true),
        ev("coding_verifier_2", false),
        ev("coding_edit", true),
        ev("coding_verifier_3", true),
        ev("coding_verifier_4", true),
        ev("coding_verifier_5", true),
        ev("coding_verifier_6", true),
    ];
    assert_eq!(repair_failure_positions(&evidence), vec![6, 5, 4, 3]);
    assert_eq!(repair_failure_positions(&evidence[..4].to_vec()), vec![3, 0]);
    assert!(repair_failure_positions(&Vec::new()).is_empty());
}

#[test]
fn redaction_leaves_no_key_markers() {
    for text in [
        "token=sk-proj-abc123 and more",
        "OPENAI_API_KEY=x\tANTHROPIC_API_KEY=y\nplain",
        "a-sk-b sk- xsk-",
        "",
    ] {
        let r = redact_secret_like_tokens(text);
        assert!(!r.contains("sk-"), "{r}");
        assert!(!r.contains("OPENAI_API_KEY"));
        assert!(!r.contains("ANTHROPIC_API_KEY"));
    }
}

use tau_coding_agent::live_harness::{
    command_status_label, pass_status_edit, phase_label, pr_status_label, resume_action_label,
    CodingMissionPhase, CodingMissionPrPublicationStatus, CodingMissionResumeAction,
    CodingWorkspaceCommandStatus,
};

#[test]
fn report_labels_are_snake_case_names() {
    assert_eq!(command_status_label(CodingWorkspaceCommandStatus::Denied), "denied");
    assert_eq!(phase_label(CodingMissionPhase::PreparingBranch), "preparing_branch");
    assert_eq!(phase_label(CodingMissionPhase::PrReady), "pr_ready");
    assert_eq!(resume_action_label(CodingMissionResumeAction::VerifyAfterEdit), "verify_after_edit");
    assert_eq!(pr_status_label(CodingMissionPrPublicationStatus::DraftFailed), "draft_failed");
    let edit = pass_status_edit("provider_fix");
    assert_eq!(edit.relative_path, "status.txt");
    assert_eq!(edit.contents, "pass\n");
    assert_eq!(edit.reason_code, "provider_fix");
}

use tau_coding_agent::live_harness::{provider_api_key_flag, Provider};

#[test]
fn provider_key_flags() {
    assert_eq!(provider_api_key_flag(Provider::OpenRouter), Some("--openai-api-key"));
    assert_eq!(provider_api_key_flag(Provider::Anthropic), Some("--anthropic-api-key"));
    assert_eq!(provider_api_key_flag(Provider::Google), Some("--google-api-key"));
}

#[test]
fn provider_prompt_includes_real_repo_context_and_complete_edit_instruction() {
    // What `git status --porcelain` and `git ls-files` report for the seeded repository.
    let status = "";
    let files = "README.md\nsrc/main.js\n";
    let candidates = repo_snippet_candidates(files);
    assert_eq!(candidates, vec!["README.md", "src/main.js"]);
    let contents = ["existing readme\n", "console.log('old');\n"];
    let snippets: Vec<RepoFileSnippet> = candidates
        .iter()
        .zip(contents)
        .map(|(path, body)| RepoFileSnippet { relative_path: path.clone(), contents: body.to_string() })
        .collect();
    let rendered = render_repo_file_snippets(&snippets);
    let context = provider_repo_context_text(status, files, &rendered);
    let verifiers = vec!["test -f index.html".to_string(), "grep -q Phaser src/main.js".to_string()];
    let prompt = provider_prompt_text(
        "Create index.html and update src/main.js",
        "/tmp/provider-prompt/repo",
        &context,
        &verifiers,
        None,
    );
    assert!(prompt.contains("Repository context"));
    assert!(prompt.contains("Tracked and untracked files"));
    assert!(prompt.contains("README.md"));
    assert!(prompt.contains("--- src/main.js ---"));
    assert!(prompt.contains("console.log('old');"));
    assert!(prompt.contains("Return a complete edit set for all files needed"));
    assert!(prompt.contains("\"files\""));
    assert!(prompt.contains("grep -q Phaser src/main.js"));
}

use tau_coding_agent::live_harness::{
    final_provider_report, last_commit_position, report_branch, report_changed_files,
};

#[test]
fn report_assembly_prefers_bundle_then_commit() {
    assert_eq!(last_commit_position(&vec![true, false, true, false]), Some(2));
    assert_eq!(last_commit_position(&vec![false, false]), None);
    let bundle = vec!["a".to_string(), "b".to_string()];
    let commit = vec!["c".to_string()];
    assert_eq!(report_changed_files(Some(&bundle), Some(&commit)), bundle);
    assert_eq!(report_changed_files(None, Some(&commit)), commit);
    assert!(report_changed_files(None, None).is_empty());
    assert_eq!(report_branch(Some("ckpt"), Some("pr"), Some("c")).as_deref(), Some("ckpt"));
    assert_eq!(report_branch(None, Some("pr"), Some("c")).as_deref(), Some("pr"));
    assert_eq!(report_branch(None, None, Some("c")).as_deref(), Some("c"));
    assert_eq!(report_branch(None, None, None), None);
    assert!(final_provider_report(&Vec::new()).is_none());
}
