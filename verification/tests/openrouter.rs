use tau_coding_agent::openrouter::{
    dotenv_value, metadata_path_for_context, openrouter_api_model_id, provider_json_candidates,
    provider_repair_system_prompt, resolve_openrouter_api_base, resolve_openrouter_api_key,
    resolve_openrouter_env_file, resolve_openrouter_repair_model, select_validated_repair_json,
    EnvSnapshot, DEFAULT_OPENROUTER_API_BASE, DEFAULT_OPENROUTER_MODEL,
};

fn snapshot(process: &[(&str, &str)], env_file: Option<&str>) -> EnvSnapshot {
    EnvSnapshot {
        process: process.iter().map(|(k, v)| (k.to_string(), v.to_string())).collect(),
        env_file_contents: env_file.map(|s| s.to_string()),
        nearest_dotenv_contents: None,
    }
}

#[test]
fn spec_3803_resolves_model_from_explicit_env_file() {
    let snap = snapshot(&[], Some("TAU_PROVIDER_PROOF_MODEL=openrouter/qwen/qwen-3.7-max\n"));
    assert_eq!(resolve_openrouter_repair_model(None, &snap), "openrouter/qwen/qwen-3.7-max");
}

#[test]
fn spec_3803_strips_openrouter_prefix_for_api_model_id() {
    assert_eq!(
        openrouter_api_model_id("openrouter/deepseek/deepseek-chat-v3-0324").expect("model"),
        "deepseek/deepseek-chat-v3-0324"
    );
    assert_eq!(openrouter_api_model_id("qwen/qwen-3.7-max").expect("model"), "qwen/qwen-3.7-max");
}

#[test]
fn spec_3803_extracts_fenced_json_and_validates_contract() {
    let response = r#"Here is the repair:
```json
{"edits":[{"relative_path":"src/lib.rs","contents":"pub fn value() -> u8 { 1 }\n","reason_code":"fix_value"}]}
```
"#;
    let candidates = provider_json_candidates(response);
    // The contract check reads each candidate as JSON and lists the edit paths.
    let parsed: Vec<Result<Vec<String>, String>> = candidates
        .iter()
        .map(|c| match serde_json::from_str::<serde_json::Value>(c) {
            Ok(v) => v
                .get("edits")
                .and_then(|e| e.as_array())
                .map(|edits| {
                    edits
                        .iter()
                        .filter_map(|e| e.get("relative_path").and_then(|p| p.as_str()))
                        .map(|p| p.to_string())
                        .collect()
                })
                .ok_or_else(|| "no edits".to_string()),
            Err(e) => Err(e.to_string()),
        })
        .collect();
    let validated = select_validated_repair_json(&candidates, &parsed).expect("valid contract");
    assert_eq!(validated.edit_paths, vec!["src/lib.rs"]);
    assert!(validated.json.contains("\"edits\""));
}

#[test]
fn empty_model_reference_is_refused() {
    assert!(openrouter_api_model_id("   ").is_err());
    assert_eq!(openrouter_api_model_id(" openrouter/x ").expect("model"), "x");
}

#[test]
fn settings_follow_precedence() {
    let snap = snapshot(
        &[("TAU_OPENROUTER_MODEL", " env-model "), ("OPENROUTER_API_KEY", "sk-1")],
        Some("TAU_OPENROUTER_MODEL=file-model\n"),
    );
    assert_eq!(resolve_openrouter_repair_model(Some("  explicit  "), &snap), "explicit");
    assert_eq!(resolve_openrouter_repair_model(Some("   "), &snap), "env-model");
    let empty = snapshot(&[], None);
    assert_eq!(resolve_openrouter_repair_model(None, &empty), DEFAULT_OPENROUTER_MODEL);
    assert_eq!(resolve_openrouter_api_base(None, &empty), DEFAULT_OPENROUTER_API_BASE);
    let key = resolve_openrouter_api_key(&snap, None).expect("key");
    assert_eq!(key.0, "sk-1");
    assert!(resolve_openrouter_api_key(&empty, None).is_none());
}

#[test]
fn dotenv_lines_are_parsed_strictly() {
    let contents = "# comment\nexport  A = \"quoted\"\nB=plain\nB=second\n C='single' \nBAD-NAME=x\nEMPTY=\n";
    assert_eq!(dotenv_value(contents, "A").as_deref(), Some("quoted"));
    assert_eq!(dotenv_value(contents, "B").as_deref(), Some("plain"));
    assert_eq!(dotenv_value(contents, "C").as_deref(), Some("single"));
    assert_eq!(dotenv_value(contents, "BAD-NAME"), None);
    assert_eq!(dotenv_value(contents, "EMPTY"), None);
}

#[test]
fn env_file_prefers_configured_path() {
    assert_eq!(
        resolve_openrouter_env_file(Some("a/.env".to_string()), Some("b/.env".to_string())),
        Some("a/.env".to_string())
    );
    assert_eq!(resolve_openrouter_env_file(None, Some("b/.env".to_string())), Some("b/.env".to_string()));
}

#[test]
fn candidates_are_distinct_and_ordered() {
    let text = "```json\n{\"a\":1}\n```";
    assert_eq!(provider_json_candidates(text), vec![text.to_string(), "{\"a\":1}".to_string()]);
    assert_eq!(provider_json_candidates("{\"a\":1}"), vec!["{\"a\":1}".to_string()]);
    assert!(provider_json_candidates("   ").is_empty());
}

#[test]
fn contract_failure_reports_first_error_or_missing_json() {
    let err = select_validated_repair_json(&Vec::new(), &Vec::new()).unwrap_err();
    assert_eq!(
        err,
        "OpenRouter repair response did not match Tau edit/diff contract: no JSON object found in provider response"
    );
    let c = vec!["x".to_string(), "y".to_string()];
    let p = vec![Err("first".to_string()), Err("second".to_string())];
    assert_eq!(
        select_validated_repair_json(&c, &p).unwrap_err(),
        "OpenRouter repair response did not match Tau edit/diff contract: first"
    );
    let p2 = vec![Err("first".to_string()), Ok(vec!["a.rs".to_string()])];
    let ok = select_validated_repair_json(&c, &p2).unwrap();
    assert_eq!(ok.json, "y");
    assert_eq!(ok.edit_paths, vec!["a.rs".to_string()]);
}

#[test]
fn metadata_path_sits_next_to_context() {
    assert_eq!(
        metadata_path_for_context("runs/ctx.json"),
        "runs/ctx.json.openrouter-call.json"
    );
    assert_eq!(metadata_path_for_context("ctx.json"), "ctx.json.openrouter-call.json");
    assert_eq!(metadata_path_for_context("/a/b/"), "/a/b.openrouter-call.json");
    assert_eq!(
        metadata_path_for_context(".."),
        "../provider-repair-context.json.openrouter-call.json"
    );
    assert_eq!(metadata_path_for_context("/"), "/provider-repair-context.json.openrouter-call.json");
}

#[test]
fn system_prompt_lists_the_schemas() {
    let prompt = provider_repair_system_prompt();
    assert!(prompt.starts_with("You are Tau's provider repair adapter"));
    assert!(prompt.contains("{\"files\":"));
    assert_eq!(prompt.lines().count(), 9);
}

use tau_coding_agent::openrouter::{nearest_dotenv_index, DotenvProbe};

#[test]
fn nearest_dotenv_stops_at_the_repository_root() {
    let p = |has_dotenv: bool, has_git: bool| DotenvProbe { has_dotenv, has_git };
    assert_eq!(nearest_dotenv_index(&vec![p(false, false), p(true, false)]), Some(1));
    assert_eq!(nearest_dotenv_index(&vec![p(false, true), p(true, false)]), None);
    assert_eq!(nearest_dotenv_index(&vec![p(true, true)]), Some(0));
    assert_eq!(nearest_dotenv_index(&vec![]), None);
}
