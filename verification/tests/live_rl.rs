use tau_coding_agent::live_rl::{
    canonicalize_task_category, infer_task_category, live_rl_settings_from_env, parse_bool_env,
    parse_positive_usize_env, parse_usize,
};

fn env(pairs: &[(&str, &str)]) -> Vec<(String, String)> {
    pairs.iter().map(|(k, v)| (k.to_string(), v.to_string())).collect()
}

#[test]
fn spec_c04_unit_live_rl_env_defaults_to_disabled() {
    let settings = live_rl_settings_from_env(&Vec::new(), ".tau/training/store.sqlite").expect("defaults");
    assert!(!settings.enabled);
    assert_eq!(settings.store_path, ".tau/training/store.sqlite");
    assert_eq!(settings.update_interval_rollouts, 8);
    assert_eq!(settings.max_rollouts_per_update, 64);
    assert_eq!(settings.max_failure_streak, 3);
    assert!(settings.apo_enabled);
    assert_eq!(settings.apo_min_samples, 4);
    assert_eq!(settings.apo_max_samples, 32);
}

#[test]
fn settings_reject_bad_values_in_order() {
    let err = live_rl_settings_from_env(&env(&[("TAU_LIVE_RL_ENABLED", "maybe")]), "x").unwrap_err();
    assert_eq!(err, "TAU_LIVE_RL_ENABLED must be one of 1,true,yes,on,0,false,no,off");
    let err = live_rl_settings_from_env(&env(&[("TAU_LIVE_RL_UPDATE_INTERVAL", "0")]), "x").unwrap_err();
    assert_eq!(err, "TAU_LIVE_RL_UPDATE_INTERVAL must be greater than 0");
    let err = live_rl_settings_from_env(
        &env(&[("TAU_LIVE_RL_APO_MIN_SAMPLES", "9"), ("TAU_LIVE_RL_APO_MAX_SAMPLES", "5")]),
        "x",
    )
    .unwrap_err();
    assert_eq!(
        err,
        "TAU_LIVE_RL_APO_MIN_SAMPLES cannot be greater than TAU_LIVE_RL_APO_MAX_SAMPLES"
    );
    let ok = live_rl_settings_from_env(
        &env(&[("TAU_LIVE_RL_ENABLED", " On "), ("TAU_LIVE_RL_STORE_SQLITE", "  /data/rl.db ")]),
        "x",
    )
    .unwrap();
    assert!(ok.enabled);
    assert_eq!(ok.store_path, "/data/rl.db");
}

#[test]
fn booleans_accept_the_documented_words() {
    for w in ["1", "true", "YES", " on "] {
        assert_eq!(parse_bool_env(w), Some(true));
    }
    for w in ["0", "False", "no", "OFF"] {
        assert_eq!(parse_bool_env(w), Some(false));
    }
    assert_eq!(parse_bool_env("2"), None);
}

#[test]
fn positive_integers_follow_usize_parsing() {
    assert_eq!(parse_positive_usize_env(None, 8, "K"), Ok(8));
    assert_eq!(parse_positive_usize_env(Some("  "), 8, "K"), Ok(8));
    assert_eq!(parse_positive_usize_env(Some(" +12 "), 8, "K"), Ok(12));
    assert_eq!(parse_positive_usize_env(Some("-1"), 8, "K"), Err("K must be a positive integer".to_string()));
    assert_eq!(parse_positive_usize_env(Some("0"), 8, "K"), Err("K must be greater than 0".to_string()));
    let digits: Vec<char> = "99999999999999999999999".chars().collect();
    assert_eq!(parse_usize(&digits), None);
    let plus: Vec<char> = "+".chars().collect();
    assert_eq!(parse_usize(&plus), None);
}

#[test]
fn categories_are_canonicalised() {
    assert_eq!(canonicalize_task_category("  Bug Fix!! ").as_deref(), Some("debugging"));
    assert_eq!(canonicalize_task_category("debug--Memory").as_deref(), Some("debugging_memory"));
    assert_eq!(canonicalize_task_category("__Q/A__").as_deref(), Some("qa"));
    assert_eq!(canonicalize_task_category("Data Science").as_deref(), Some("data_science"));
    assert_eq!(canonicalize_task_category("***"), None);
    assert_eq!(canonicalize_task_category("   "), None);
}

#[test]
fn prompts_are_filed_by_keyword() {
    assert_eq!(infer_task_category("Please FIX the flaky test"), "debugging");
    assert_eq!(infer_task_category("rename this module"), "refactoring");
    assert_eq!(infer_task_category("Implement the parser"), "code_generation");
    assert_eq!(infer_task_category("draft a roadmap"), "planning");
    assert_eq!(infer_task_category("deploy to prod"), "operations");
    assert_eq!(infer_task_category("why is the sky blue"), "qa");
    assert_eq!(infer_task_category("hello there"), "general");
}

use tau_coding_agent::live_rl::{select_live_rollout_ids, LiveRlRuntimeGate, LiveRlRuntimeState, MessageRole};

#[test]
fn failure_streak_holds_the_gate_and_success_resets_it() {
    let mut state = LiveRlRuntimeState::new();
    let (stale, id) = state.start_run();
    assert!(stale.is_none());
    assert_eq!(id.as_deref(), Some("live-rl-rollout-0000000001"));
    assert_eq!(
        state.active_run.as_ref().map(|r| r.attempt_id.as_str()),
        Some("live-rl-rollout-0000000001:attempt-live")
    );
    state.register_failure("one".to_string(), 3);
    assert_eq!(state.record_success(2), false);
    assert_eq!(state.consecutive_failures, 0);
    assert!(state.last_error.is_none());
    assert!(state.record_success(2));
    for k in 0..3 {
        state.register_failure(format!("failure {k}"), 3);
    }
    assert_eq!(state.gate, LiveRlRuntimeGate::Hold);
    let (stale, id) = state.start_run();
    assert!(stale.is_some());
    assert!(id.is_none());
    assert!(state.active_run.is_none());
    state.record_success(2);
    assert_eq!(state.gate, LiveRlRuntimeGate::Hold);
}

#[test]
fn active_run_collects_prompt_reply_and_counters() {
    let mut state = LiveRlRuntimeState::new();
    state.start_run();
    state.record_message(MessageRole::User, "  first prompt ");
    state.record_message(MessageRole::User, "second prompt");
    state.record_message(MessageRole::Assistant, "   ");
    state.record_message(MessageRole::Assistant, " reply ");
    state.record_turn_end();
    state.record_turn_end();
    state.record_tool_error();
    state.record_safety_block();
    let run = state.take_active_run().expect("run");
    assert_eq!(run.prompt.as_deref(), Some("first prompt"));
    assert_eq!(run.assistant_reply.as_deref(), Some("reply"));
    assert_eq!(run.turns, 2);
    assert_eq!(run.tool_errors, 1);
    assert!(run.safety_blocked);
    assert!(state.active_run.is_none());
    let (_, id) = state.start_run();
    let id = id.unwrap();
    state.clear_active_run("other");
    assert!(state.active_run.is_some());
    state.clear_active_run(&id);
    assert!(state.active_run.is_none());
}

#[test]
fn update_uses_newest_live_rollouts_in_id_order() {
    let ids: Vec<String> = ["live-rl-rollout-0000000003", "other-1", "live-rl-rollout-0000000001", "live-rl-rollout-0000000002"]
        .iter()
        .map(|s| s.to_string())
        .collect();
    assert_eq!(
        select_live_rollout_ids(&ids, 2),
        vec!["live-rl-rollout-0000000002".to_string(), "live-rl-rollout-0000000003".to_string()]
    );
    assert_eq!(select_live_rollout_ids(&ids, 10).len(), 3);
    assert!(select_live_rollout_ids(&ids, 0).is_empty());
}

#[test]
fn canonical_categories_are_fixed_points() {
    for raw in ["  Bug Fix!! ", "debug--Memory", "__Q/A__", "Data Science", "ops", "x9__y"] {
        let once = canonicalize_task_category(raw).expect("some category");
        assert_eq!(canonicalize_task_category(&once).as_deref(), Some(once.as_str()));
    }
}

#[test]
fn inferred_categories_are_among_the_seven() {
    let known = ["debugging", "refactoring", "code_generation", "planning", "operations", "qa", "general"];
    for prompt in ["", "deploy the release", "why is it slow", "hello", "PLAN the roadmap", "fix"] {
        assert!(known.contains(&infer_task_category(prompt).as_str()));
    }
}

use tau_coding_agent::live_rl::curriculum_selection;

/// The selection as the runtime performs it on its sample stacks.
fn stack_selection(sizes: &[usize], bursts: &[usize], max: usize) -> Vec<(usize, usize)> {
    let total: usize = sizes.iter().sum();
    if total == 0 || max == 0 {
        return Vec::new();
    }
    let mut stacks: Vec<Vec<(usize, usize)>> =
        sizes.iter().enumerate().map(|(g, &n)| (0..n).map(|k| (g, k)).collect()).collect();
    if total <= max {
        return stacks.into_iter().flatten().collect();
    }
    let mut selected = Vec::new();
    for stack in stacks.iter_mut() {
        if selected.len() == max {
            break;
        }
        if let Some(s) = stack.pop() {
            selected.push(s);
        }
    }
    while selected.len() < max {
        let mut progressed = false;
        for (g, stack) in stacks.iter_mut().enumerate() {
            if selected.len() == max {
                break;
            }
            let burst = bursts[g].max(1);
            for _ in 0..burst {
                if selected.len() == max {
                    break;
                }
                if let Some(s) = stack.pop() {
                    selected.push(s);
                    progressed = true;
                } else {
                    break;
                }
            }
        }
        if !progressed {
            break;
        }
    }
    selected.reverse();
    selected
}

#[test]
fn curriculum_round_robin_with_bursts() {
    assert_eq!(
        curriculum_selection(&vec![3, 1, 4], &vec![1, 2, 1], 6),
        vec![(0, 0), (2, 2), (0, 1), (2, 3), (1, 0), (0, 2)]
    );
    assert_eq!(
        curriculum_selection(&vec![2, 5], &vec![2, 0], 5),
        vec![(1, 2), (1, 3), (0, 0), (1, 4), (0, 1)]
    );
    assert_eq!(curriculum_selection(&vec![2, 1], &vec![1, 1], 3), vec![(0, 0), (0, 1), (1, 0)]);
    assert!(curriculum_selection(&vec![2, 1], &vec![1, 1], 0).is_empty());
    assert!(curriculum_selection(&vec![], &vec![], 4).is_empty());
}

#[test]
fn curriculum_selection_matches_the_runtime_on_many_inputs() {
    let mut seed: u64 = 7;
    let mut next = |m: u64| {
        seed = seed.wrapping_mul(6364136223846793005).wrapping_add(1442695040888963407);
        ((seed >> 33) % m) as usize
    };
    for _ in 0..400 {
        let n = next(5);
        let sizes: Vec<usize> = (0..n).map(|_| next(6)).collect();
        let bursts: Vec<usize> = (0..n).map(|_| next(4)).collect();
        let max = next(12);
        assert_eq!(
            curriculum_selection(&sizes, &bursts, max),
            stack_selection(&sizes, &bursts, max),
            "{sizes:?} {bursts:?} {max}"
        );
    }
}

#[test]
fn curriculum_keeps_the_hardest_category_newest_sample_when_capped() {
    let picks = curriculum_selection(&vec![0, 3, 1], &vec![1, 1, 1], 2);
    assert_eq!(picks.len(), 2);
    assert_eq!(picks[picks.len() - 1], (1, 2));
    let all = curriculum_selection(&vec![0, 3, 1], &vec![1, 1, 1], 9);
    assert_eq!(all.len(), 4);
}

#[test]
fn apo_sample_gate_respects_min_and_hard_floor() {
    assert_eq!(
        tau_coding_agent::live_rl::apo_sample_gate(3, 4),
        Some("apo_insufficient_samples")
    );
    assert_eq!(tau_coding_agent::live_rl::apo_sample_gate(4, 4), None);
    assert_eq!(
        tau_coding_agent::live_rl::apo_sample_gate(1, 1),
        Some("apo_insufficient_samples")
    );
    assert_eq!(tau_coding_agent::live_rl::apo_sample_gate(2, 1), None);
}
