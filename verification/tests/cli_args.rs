use tau_coding_agent::cli_args::normalize_daemon_subcommand_args;

#[test]
fn unit_normalize_daemon_subcommand_args_maps_action_and_alias_flags() {
    let normalized = normalize_daemon_subcommand_args(vec![
        "tau-rs".to_string(),
        "daemon".to_string(),
        "status".to_string(),
        "--json".to_string(),
        "--state-dir".to_string(),
        ".tau/ops-daemon".to_string(),
    ]);
    assert_eq!(
        normalized,
        vec![
            "tau-rs",
            "--daemon-status",
            "--daemon-status-json",
            "--daemon-state-dir",
            ".tau/ops-daemon",
        ]
    );
}

#[test]
fn normalize_daemon_leaves_other_invocations_alone() {
    let args = vec!["tau-rs".to_string(), "daemon".to_string(), "reboot".to_string()];
    assert_eq!(normalize_daemon_subcommand_args(args.clone()), args);
    let short = vec!["tau-rs".to_string(), "daemon".to_string()];
    assert_eq!(normalize_daemon_subcommand_args(short.clone()), short);
    let stop = vec![
        "tau-rs".to_string(),
        "daemon".to_string(),
        "stop".to_string(),
        "--reason".to_string(),
        "maint".to_string(),
        "--profile".to_string(),
    ];
    assert_eq!(
        normalize_daemon_subcommand_args(stop),
        vec!["tau-rs", "--daemon-stop", "--daemon-stop-reason", "maint", "--daemon-profile"]
    );
}
