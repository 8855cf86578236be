use tau_coding_agent::autonomous_job::{
    build_intake_run_request, ensure_intake_run_decision, intake_run_verifier_commands,
    is_concrete_verifier_command, parse_edits, prepare_intake_run, provider_repair_policy,
    EditParseError, IntakeRunArgs, IntakeRunError, IssueIntake, IssueIntakeDecision, MergeMethod,
    PrMode, ProviderRepairArgs,
};
use tau_coding_agent::openrouter::EnvSnapshot;

fn intake_fixture(
    decision: IssueIntakeDecision,
    title: &str,
    body: &str,
    verifier_commands: Vec<&str>,
) -> IssueIntake {
    IssueIntake {
        intake_id: "issue-3809-intake-run".to_string(),
        decision,
        issue_url: "https://github.com/njfio/Tau/issues/3809".to_string(),
        issue_title: title.to_string(),
        issue_body: body.to_string(),
        repo_path: "/tmp/tau-fixture".to_string(),
        base_branch: "master".to_string(),
        suggested_verifier_commands: verifier_commands.into_iter().map(str::to_string).collect(),
    }
}

fn provider_repair_args_fixture() -> ProviderRepairArgs {
    ProviderRepairArgs {
        provider_repair_command: None,
        provider_repair_args: Vec::new(),
        provider_repair_attempts: 0,
        provider_repair_provider: None,
        provider_repair_model: None,
        provider_repair_openrouter: false,
        provider_repair_env_file: None,
        provider_repair_api_base: None,
        provider_repair_timeout_ms: 120_000,
        provider_repair_max_tokens: 1_200,
        provider_repair_max_retries: 1,
    }
}

fn empty_env() -> EnvSnapshot {
    EnvSnapshot { process: Vec::new(), env_file_contents: None, nearest_dotenv_contents: None }
}

fn run_args(edits: Vec<&str>) -> IntakeRunArgs {
    IntakeRunArgs {
        provider_repair: provider_repair_args_fixture(),
        intake_id: "issue-3809-intake-run".to_string(),
        mission_id: None,
        session_key: "session-3809".to_string(),
        goal: None,
        branch_prefix: "codex/intake-run-".to_string(),
        verifier_commands: Vec::new(),
        allowed_roots: Vec::new(),
        edits: edits.into_iter().map(str::to_string).collect(),
        commit_message: None,
        pr_mode: PrMode::Draft,
        timeout_ms: Some(30_000),
        allow_auto_merge: false,
        merge_method: MergeMethod::Squash,
        delete_branch: false,
        gh_binary: None,
        started_unix_ms: Some(3_809),
    }
}

#[test]
fn spec_3809_intake_run_uses_concrete_persisted_verifier() {
    let intake = intake_fixture(
        IssueIntakeDecision::NeedsAuthority,
        "Fix concrete verifier",
        "Issue body",
        vec!["cargo test -p fixture-cli spec_3809_intake_run"],
    );
    let commands = intake_run_verifier_commands(&intake, &Vec::new()).expect("verifier commands");
    assert_eq!(commands, vec!["cargo test -p fixture-cli spec_3809_intake_run"]);
}

#[test]
fn spec_3809_intake_run_uses_explicit_verifier_answer() {
    let intake = intake_fixture(
        IssueIntakeDecision::NeedsAuthority,
        "Fix missing verifier",
        "Issue body",
        vec!["cargo test -p <affected-crate> <focused-test>"],
    );
    let commands = intake_run_verifier_commands(
        &intake,
        &vec!["cargo test -p tau-runtime spec_3809".to_string()],
    )
    .expect("explicit verifier");
    assert_eq!(commands, vec!["cargo test -p tau-runtime spec_3809"]);
}

#[test]
fn spec_3809_intake_run_builds_issue_to_merge_request_from_persisted_intake() {
    let intake = intake_fixture(
        IssueIntakeDecision::NeedsAuthority,
        "Fix persisted issue",
        "Persisted issue body",
        vec!["cargo test -p tau-coding-agent spec_3809"],
    );
    let args = run_args(vec!["src/lib.rs=updated contents\n"]);
    let (edits, policy) =
        prepare_intake_run(&args, None, &empty_env(), "/bin/job".to_string()).expect("prepare");
    assert!(!policy.enabled);
    let request = build_intake_run_request(intake, args, edits, policy, false, Vec::new(), 1)
        .expect("request");

    assert_eq!(request.intake_id, "issue-3809-intake-run");
    assert_eq!(request.mission_id, "issue-3809-intake-run-mission");
    assert_eq!(request.session_key, "session-3809");
    assert_eq!(request.repo_path, "/tmp/tau-fixture");
    assert_eq!(request.issue_title, "Fix persisted issue");
    assert_eq!(request.issue_body, "Persisted issue body");
    assert_eq!(request.goal, "Fix persisted issue\n\nPersisted issue body");
    assert_eq!(request.verifier_commands, vec!["cargo test -p tau-coding-agent spec_3809"]);
    assert_eq!(request.allowed_roots, vec!["/tmp/tau-fixture".to_string()]);
    assert_eq!(request.pr_mode, PrMode::Draft);
    assert_eq!(request.controlled_edits.len(), 1);
    assert_eq!(request.controlled_edits[0].relative_path, "src/lib.rs");
    assert_eq!(request.controlled_edits[0].contents, "updated contents\n");
    assert_eq!(request.commit_message, "Resolve Fix persisted issue");
    assert_eq!(request.started_unix_ms, 3_809);
    assert!(!request.provider_repair.enabled);
}

#[test]
fn spec_3809_intake_run_rejects_vague_or_placeholder_intake() {
    let vague = intake_fixture(
        IssueIntakeDecision::NeedsClarification,
        "Fix it",
        "Broken",
        vec!["cargo test -p tau-runtime spec_3809"],
    );
    let vague_error = ensure_intake_run_decision(&vague).expect_err("vague refused");
    assert!(vague_error.to_string().contains("needs_clarification"));

    let placeholder = intake_fixture(
        IssueIntakeDecision::NeedsAuthority,
        "Fix placeholder",
        "Issue body",
        vec!["cargo test -p <affected-crate> <focused-test>"],
    );
    let placeholder_error =
        intake_run_verifier_commands(&placeholder, &Vec::new()).expect_err("placeholder refused");
    assert!(placeholder_error.to_string().contains("concrete"));
}

#[test]
fn edits_must_name_a_path_before_equals() {
    assert_eq!(
        parse_edits(&vec!["a=1".to_string(), "nothing".to_string(), " =x".to_string()]).unwrap_err(),
        EditParseError::MissingEquals
    );
    assert_eq!(parse_edits(&vec![" =x".to_string()]).unwrap_err(), EditParseError::EmptyPath);
    let edits = parse_edits(&vec!["p=a=b".to_string()]).unwrap();
    assert_eq!(edits[0].relative_path, "p");
    assert_eq!(edits[0].contents, "a=b");
    assert_eq!(edits[0].reason_code, "operator_controlled_edit");
}

#[test]
fn concrete_commands_have_no_placeholders() {
    assert!(is_concrete_verifier_command("cargo test"));
    assert!(!is_concrete_verifier_command(""));
    assert!(!is_concrete_verifier_command("run <x>"));
}

#[test]
fn openrouter_policy_runs_the_adapter() {
    let mut args = provider_repair_args_fixture();
    args.provider_repair_openrouter = true;
    args.provider_repair_api_base = Some("  https://example.test/api  ".to_string());
    args.provider_repair_timeout_ms = 0;
    let policy = provider_repair_policy(
        &args,
        Some("/repo/.env".to_string()),
        &empty_env(),
        "/bin/job".to_string(),
    )
    .expect("policy");
    assert!(policy.enabled);
    assert_eq!(policy.max_attempts, 3);
    assert_eq!(policy.command.as_deref(), Some("/bin/job"));
    assert_eq!(policy.provider.as_deref(), Some("openrouter"));
    assert_eq!(policy.model.as_deref(), Some("openrouter/openai/gpt-4.1-mini"));
    assert_eq!(
        policy.args,
        vec![
            "openrouter-repair-adapter",
            "--model",
            "openrouter/openai/gpt-4.1-mini",
            "--request-timeout-ms",
            "1",
            "--max-tokens",
            "1200",
            "--max-retries",
            "1",
            "--env-file",
            "/repo/.env",
            "--api-base",
            "https://example.test/api",
        ]
    );
    args.provider_repair_command = Some("x".to_string());
    assert_eq!(
        provider_repair_policy(&args, None, &empty_env(), "/bin/job".to_string()).unwrap_err(),
        IntakeRunError::OpenrouterWithCommand
    );
}

#[test]
fn command_policy_needs_a_command_and_attempts() {
    let mut args = provider_repair_args_fixture();
    args.provider_repair_command = Some("/bin/repair".to_string());
    args.provider_repair_attempts = 2;
    let p = provider_repair_policy(&args, None, &empty_env(), "/bin/job".to_string()).unwrap();
    assert!(p.enabled);
    assert_eq!(p.max_attempts, 2);
    args.provider_repair_attempts = 0;
    let q = provider_repair_policy(&args, None, &empty_env(), "/bin/job".to_string()).unwrap();
    assert!(!q.enabled);
}

#[test]
fn intake_run_requires_authority_and_persisted_fields() {
    let intake = intake_fixture(IssueIntakeDecision::ReadyToRun, "T", "B", vec!["cargo test"]);
    let args = run_args(Vec::new());
    let (edits, policy) = prepare_intake_run(&args, None, &empty_env(), "/bin/job".to_string()).unwrap();
    let err = build_intake_run_request(intake, args, edits, policy, false, Vec::new(), 7).unwrap_err();
    assert_eq!(err, IntakeRunError::MissingAuthority);
    assert_eq!(err.to_string(), "intake-run requires --edit or provider repair authority");

    let mut blank = intake_fixture(IssueIntakeDecision::ReadyToRun, "T", "   ", vec!["cargo test"]);
    let args = run_args(vec!["a=b"]);
    let (edits, policy) = prepare_intake_run(&args, None, &empty_env(), "/bin/job".to_string()).unwrap();
    assert_eq!(
        build_intake_run_request(blank.clone(), args.clone(), edits.clone(), policy.clone(), false, Vec::new(), 7)
            .unwrap_err(),
        IntakeRunError::MissingIssueBody
    );
    blank.issue_body = "B".to_string();
    blank.decision = IssueIntakeDecision::BlockedUnsafe;
    let err = build_intake_run_request(blank, args.clone(), edits, policy, false, Vec::new(), 7).unwrap_err();
    assert_eq!(err.to_string(), "intake-run refuses blocked_unsafe intake");
    let mut with_start = args;
    with_start.started_unix_ms = None;
    with_start.goal = Some("custom goal".to_string());
    let intake = intake_fixture(IssueIntakeDecision::ReadyToRun, " T ", "B", vec!["cargo test"]);
    let (edits, policy) = prepare_intake_run(&with_start, None, &empty_env(), "/bin/job".to_string()).unwrap();
    let req = build_intake_run_request(intake, with_start, edits, policy, true, Vec::new(), 42).unwrap();
    assert_eq!(req.started_unix_ms, 42);
    assert_eq!(req.goal, "custom goal");
    assert_eq!(req.issue_title, "T");
}
